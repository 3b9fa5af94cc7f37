//! The player's state as the server reports it, and routes set locally.

use vstd::prelude::*;
use vstd::string::StringExecFns;

use crate::items::{EquipmentLoadout, EquipmentSlot, InventorySlot};
use crate::terrain::fog::FogOfWar;
use crate::terrain::path::{find_path_with_items, DisplayRoute};
use crate::terrain::world::WorldGrid;
use crate::text::{append_decimal, same_option_text, same_text, same_text_but_case};

verus! {

#[derive(Debug, Clone, Copy, PartialEq, Eq, Hash, Structural)]
pub enum Facing {
    Down,
    Up,
    Right,
    Left,
}

/// A choice between boons that waits for the player.
#[derive(Debug, Clone)]
pub struct PendingBoonChoice {
    pub choices: Vec<String>,
}

/// A temporary effect of a consumed potion.
#[derive(Debug, Clone)]
pub struct ActiveBuff {
    pub item_id: String,
    /// Percentage by which the buff raises what it acts on.
    pub percent: i32,
    /// When it ends, in seconds since the epoch.
    pub expires_at: u64,
}

/// One player, as the server reports them.
pub struct PlayerRow {
    pub id: String,
    pub name: String,
    pub is_walking: bool,
    pub map_tile_x: Option<i32>,
    pub map_tile_y: Option<i32>,
    pub gold: i32,
    pub facing: Facing,
    pub planned_route: Option<String>,
    pub inventory: Vec<InventorySlot>,
    pub equipment: EquipmentLoadout,
    pub opened_chests: Vec<String>,
    pub defeated_monsters: Vec<String>,
    pub champion: Option<String>,
    /// None on the overworld, else the interior the player is in.
    pub location: Option<String>,
    pub completed_events: Vec<String>,
    pub item_upgrades: Vec<(String, u8)>,
    pub boons: Vec<String>,
    pub pending_boon_choice: Option<PendingBoonChoice>,
    pub active_buffs: Vec<ActiveBuff>,
    pub adventure_id: String,
}

/// Authoritative player state from the server. Updated every poll.
pub struct MyPlayerState {
    pub tile_x: i32,
    pub tile_y: i32,
    pub route: Vec<(usize, usize)>,
    pub is_walking: bool,
    pub gold: i32,
    pub facing: Facing,
    pub initialized: bool,
    pub last_poll_tile: (i32, i32),
    pub inventory: Vec<InventorySlot>,
    pub equipment: EquipmentLoadout,
    pub opened_chests: Vec<String>,
    pub defeated_monsters: Vec<String>,
    /// None on the overworld, else the interior the player is in.
    pub location: Option<String>,
    /// Events this player has personally completed.
    pub completed_events: Vec<String>,
    /// Forge upgrade level of each upgraded item.
    pub item_upgrades: Vec<(String, u8)>,
    /// Permanent boons earned across adventures.
    pub boons: Vec<String>,
    pub pending_boon_choice: Option<PendingBoonChoice>,
    pub active_buffs: Vec<ActiveBuff>,
    /// Which adventure this player is in.
    pub adventure_id: String,
}

impl Default for MyPlayerState {
    fn default() -> (state: MyPlayerState)
        ensures
            !state.initialized,
            state.route@.len() == 0,
            state.location is None,
            state.adventure_id@.len() == 0,
            state.gold == 0,
            state.tile_x == 0,
            state.tile_y == 0,
            !state.is_walking,
            state.facing == Facing::Down,
            state.last_poll_tile == (0i32, 0i32),
            state.inventory@.len() == 0,
            forall|slot: EquipmentSlot| crate::items::worn(state.equipment, slot) is None,
            state.opened_chests@.len() == 0,
            state.defeated_monsters@.len() == 0,
            state.completed_events@.len() == 0,
            state.item_upgrades@.len() == 0,
            state.boons@.len() == 0,
            state.pending_boon_choice is None,
            state.active_buffs@.len() == 0,
    {
        MyPlayerState {
            tile_x: 0,
            tile_y: 0,
            route: Vec::new(),
            is_walking: false,
            gold: 0,
            facing: Facing::Down,
            initialized: false,
            last_poll_tile: (0, 0),
            inventory: Vec::new(),
            equipment: EquipmentLoadout {
                weapon: None,
                armor: None,
                accessory: None,
                feet: None,
                toe_rings: None,
            },
            opened_chests: Vec::new(),
            defeated_monsters: Vec::new(),
            location: None,
            completed_events: Vec::new(),
            item_upgrades: Vec::new(),
            boons: Vec::new(),
            pending_boon_choice: None,
            active_buffs: Vec::new(),
            adventure_id: String::new(),
        }
    }
}

/// Index of the player of that name among those reported, whatever its case;
/// nobody while the name is empty.
pub fn find_me(players: &Vec<PlayerRow>, my_name: &str) -> (me: Option<usize>)
    ensures
        match me {
            Some(i) => {
                &&& my_name@.len() > 0
                &&& i < players.len()
                &&& crate::text::same_but_case(players@[i as int].name@, my_name@)
                &&& forall|j: int|
                    0 <= j < i ==> !crate::text::same_but_case(
                        (#[trigger] players@[j]).name@,
                        my_name@,
                    )
            },
            None => my_name@.len() == 0 || forall|j: int|
                0 <= j < players.len() ==> !crate::text::same_but_case(
                    (#[trigger] players@[j]).name@,
                    my_name@,
                ),
        },
{
    if my_name.is_empty() {
        return None;
    }
    let mut i: usize = 0;
    while i < players.len()
        invariant
            i <= players.len(),
            my_name@.len() > 0,
            forall|j: int|
                0 <= j < i ==> !crate::text::same_but_case(
                    (#[trigger] players@[j]).name@,
                    my_name@,
                ),
        decreases players.len() - i,
    {
        if same_text_but_case(players[i].name.as_str(), my_name) {
            return Some(i);
        }
        i = i + 1;
    }
    None
}

/// The route that the player walks, the one on screen, and whether the latter
/// waits for the server to confirm it.
#[verifier::ext_equal]
pub struct Routes {
    pub walked: Seq<(usize, usize)>,
    pub shown: Seq<(usize, usize)>,
    pub locally_modified: bool,
}

/// The routes as they stand.
pub open spec fn routes_of(state: MyPlayerState, display: DisplayRoute) -> Routes {
    Routes {
        walked: state.route@,
        shown: display.waypoints@,
        locally_modified: display.locally_modified,
    }
}

/// The server's report confirms a local change: it has the very route walked,
/// or none where the local route was cleared.
pub open spec fn confirms(
    routes: Routes,
    planned: Option<Seq<char>>,
    parsed: Option<Seq<(usize, usize)>>,
) -> bool {
    match planned {
        Some(text) => if text.len() > 0 {
            parsed == Some(routes.walked)
        } else {
            routes.shown.len() == 0
        },
        None => false,
    }
}

/// The routes after a report, which is the text of the planned route and what
/// it says: taken over unless there is a local change, which a report can only
/// confirm.
pub open spec fn after_route_report(
    routes: Routes,
    planned: Option<Seq<char>>,
    parsed: Option<Seq<(usize, usize)>>,
) -> Routes {
    if routes.locally_modified {
        Routes {
            locally_modified: !confirms(routes, planned, parsed),
            ..routes
        }
    } else {
        match planned {
            Some(text) => if text.len() > 0 {
                match parsed {
                    Some(route) => Routes { walked: route, shown: route, ..routes },
                    None => routes,
                }
            } else {
                Routes { walked: Seq::empty(), shown: Seq::empty(), ..routes }
            },
            None => routes,
        }
    }
}

fn same_route(a: &Vec<(usize, usize)>, b: &Vec<(usize, usize)>) -> (same: bool)
    ensures
        same == (a@ == b@),
{
    if a.len() != b.len() {
        return false;
    }
    let mut i: usize = 0;
    while i < a.len()
        invariant
            i <= a.len(),
            a.len() == b.len(),
            forall|j: int| 0 <= j < i ==> a@[j] == b@[j],
        decreases a.len() - i,
    {
        if a[i].0 != b[i].0 || a[i].1 != b[i].1 {
            return false;
        }
        i = i + 1;
    }
    assert(a@ =~= b@);
    true
}

fn copy_route(route: &Vec<(usize, usize)>) -> (copy: Vec<(usize, usize)>)
    ensures
        copy@ == route@,
{
    let mut copy: Vec<(usize, usize)> = Vec::new();
    let mut i: usize = 0;
    while i < route.len()
        invariant
            i <= route.len(),
            copy@ == route@.take(i as int),
        decreases route.len() - i,
    {
        copy.push(route[i]);
        i = i + 1;
        assert(copy@ =~= route@.take(i as int));
    }
    assert(copy@ =~= route@);
    copy
}

/// The content of a parsed route.
pub open spec fn route_of(parsed: Option<Vec<(usize, usize)>>) -> Option<Seq<(usize, usize)>> {
    match parsed {
        Some(route) => Some(route@),
        None => None,
    }
}

/// Takes over the server's planned route, unless the player has just changed
/// it locally. Returns whether the server has the route that is being walked:
/// only then do its meters count.
pub fn sync_route(
    state: &mut MyPlayerState,
    display: &mut DisplayRoute,
    planned: &Option<String>,
    parsed: Option<Vec<(usize, usize)>>,
) -> (in_sync: bool)
    ensures
        routes_of(*final(state), *final(display)) == after_route_report(
            routes_of(*old(state), *old(display)),
            crate::text::option_text(*planned),
            route_of(parsed),
        ),
        in_sync == !final(display).locally_modified,
        *final(state) == (MyPlayerState { route: final(state).route, ..*old(state) }),
{
    match planned {
        Some(text) => {
            if !text.as_str().is_empty() {
                match parsed {
                    Some(route) => {
                        if !display.locally_modified {
                            state.route = copy_route(&route);
                            display.waypoints = route;
                            true
                        } else if same_route(&state.route, &route) {
                            // The server caught up with the local route.
                            display.locally_modified = false;
                            true
                        } else {
                            false
                        }
                    },
                    None => !display.locally_modified,
                }
            } else if !display.locally_modified {
                state.route = Vec::new();
                display.waypoints = Vec::new();
                true
            } else if display.waypoints.len() == 0 {
                // The server confirmed the local clear.
                display.locally_modified = false;
                true
            } else {
                false
            }
        },
        None => !display.locally_modified,
    }
}

/// A local change stands until the server confirms it: no report alters the
/// routes meanwhile.
pub proof fn local_route_is_kept(
    routes: Routes,
    planned: Option<Seq<char>>,
    parsed: Option<Seq<(usize, usize)>>,
)
    requires
        routes.locally_modified,
    ensures
        ({
            let after = after_route_report(routes, planned, parsed);
            &&& after.walked == routes.walked
            &&& after.shown == routes.shown
            &&& after.locally_modified == !confirms(routes, planned, parsed)
        }),
{
}

/// Without a local change the routes become what the server reports.
pub proof fn reported_route_is_taken_over(
    routes: Routes,
    text: Seq<char>,
    route: Seq<(usize, usize)>,
)
    requires
        !routes.locally_modified,
        text.len() > 0,
    ensures
        after_route_report(routes, Some(text), Some(route)) == (Routes {
            walked: route,
            shown: route,
            locally_modified: false,
        }),
        after_route_report(routes, Some(Seq::empty()), None) == (Routes {
            walked: Seq::empty(),
            shown: Seq::empty(),
            locally_modified: false,
        }),
{
}

/// What a report of the player's own row changed.
pub struct StateUpdate {
    /// The server has the route being walked, so its meters count.
    pub in_sync: bool,
    /// This is the first report: everything shows from now on.
    pub first: bool,
    /// The route's markers are to be drawn anew.
    pub redraw_markers: bool,
}

/// Tile that a row reports, the map's corner where it reports none.
pub open spec fn reported_tile(row: PlayerRow) -> (i32, i32) {
    (
        match row.map_tile_x {
            Some(x) => x,
            None => 0,
        },
        match row.map_tile_y {
            Some(y) => y,
            None => 0,
        },
    )
}

/// Adventure after a report: a row without one leaves it as it was.
pub open spec fn reported_adventure(row: PlayerRow, before: Seq<char>) -> Seq<char> {
    if row.adventure_id@.len() > 0 {
        row.adventure_id@
    } else {
        before
    }
}

/// The player has gone from one adventure to another.
pub open spec fn adventure_switched(row: PlayerRow, before: Seq<char>) -> bool {
    before.len() > 0 && before != reported_adventure(row, before)
}

/// Takes over the player's own row. `parsed_route` is what the planned route's
/// text says, `server_fog` the tiles the server reports as seen.
pub fn apply_server_state(
    row: PlayerRow,
    parsed_route: Option<Vec<(usize, usize)>>,
    server_fog: Option<&Vec<bool>>,
    state: &mut MyPlayerState,
    display: &mut DisplayRoute,
    fog: &mut FogOfWar,
) -> (update: StateUpdate)
    requires
        old(fog).wf(),
        server_fog matches Some(seen) ==> seen.len() == old(fog).revealed.len(),
    ensures
        final(state).tile_x == reported_tile(row).0,
        final(state).tile_y == reported_tile(row).1,
        final(state).last_poll_tile == reported_tile(row),
        final(state).is_walking == row.is_walking,
        final(state).gold == row.gold,
        final(state).facing == row.facing,
        final(state).inventory == row.inventory,
        final(state).equipment == row.equipment,
        final(state).opened_chests == row.opened_chests,
        final(state).defeated_monsters == row.defeated_monsters,
        final(state).location == row.location,
        final(state).completed_events == row.completed_events,
        final(state).item_upgrades == row.item_upgrades,
        final(state).boons == row.boons,
        final(state).pending_boon_choice == row.pending_boon_choice,
        final(state).active_buffs == row.active_buffs,
        final(state).adventure_id@ == reported_adventure(row, old(state).adventure_id@),
        final(state).initialized,
        routes_of(*final(state), *final(display)) == after_route_report(
            routes_of(*old(state), *old(display)),
            crate::text::option_text(row.planned_route),
            route_of(parsed_route),
        ),
        final(fog).wf(),
        final(fog).width == old(fog).width,
        final(fog).height == old(fog).height,
        forall|i: int|
            0 <= i < final(fog).revealed.len() ==> #[trigger] final(fog).revealed@[i] == ((
            old(fog).revealed@[i] && !adventure_switched(row, old(state).adventure_id@)) || (
            server_fog matches Some(seen) && seen@[i])),
        final(fog).dirty == (old(fog).dirty || adventure_switched(row, old(state).adventure_id@)
            || exists|i: int|
            0 <= i < final(fog).revealed.len() && #[trigger] final(fog).revealed@[i]
                && !old(fog).revealed@[i]),
        update.in_sync == !final(display).locally_modified,
        update.first == !old(state).initialized,
        update.redraw_markers == (reported_tile(row) != (old(state).tile_x, old(state).tile_y)
            && !final(display).locally_modified),
{
    let tile_x: i32 = match row.map_tile_x {
        Some(x) => x,
        None => 0,
    };
    let tile_y: i32 = match row.map_tile_y {
        Some(y) => y,
        None => 0,
    };
    let tile_changed = tile_x != state.tile_x || tile_y != state.tile_y;
    state.tile_x = tile_x;
    state.tile_y = tile_y;
    state.is_walking = row.is_walking;
    state.gold = row.gold;
    state.facing = row.facing;
    state.inventory = row.inventory;
    state.equipment = row.equipment;
    state.opened_chests = row.opened_chests;
    state.defeated_monsters = row.defeated_monsters;
    state.location = row.location;
    state.completed_events = row.completed_events;
    state.item_upgrades = row.item_upgrades;
    state.boons = row.boons;
    state.pending_boon_choice = row.pending_boon_choice;
    state.active_buffs = row.active_buffs;

    // On an adventure switch the fog of the previous world is stale.
    let ghost before = state.adventure_id@;
    let ghost switched = adventure_switched(row, before);
    if !row.adventure_id.as_str().is_empty() {
        let had_one = !state.adventure_id.as_str().is_empty();
        let another = !same_text(state.adventure_id.as_str(), row.adventure_id.as_str());
        state.adventure_id = row.adventure_id;
        if had_one && another {
            fog.cover_all();
        }
    }
    let ghost covered = *fog;
    proof {
        assert forall|i: int| 0 <= i < fog.revealed.len() implies #[trigger] fog.revealed@[i] == (
        old(fog).revealed@[i] && !switched) by {
            if switched {
                crate::terrain::world_map::lemma_slot_onto_nonempty(
                    fog.width as int,
                    fog.height as int,
                    i,
                );
                assert(!fog.seen(i % fog.width as int, i / fog.width as int));
            }
        }
    }
    let in_sync = sync_route(state, display, &row.planned_route, parsed_route);
    if let Some(seen) = server_fog {
        fog.merge_server(seen);
        proof {
            if exists|i: int| 0 <= i < seen.len() && #[trigger] seen@[i] && !covered.revealed@[i] {
                let i = choose|i: int|
                    0 <= i < seen.len() && #[trigger] seen@[i] && !covered.revealed@[i];
                assert(fog.revealed@[i]);
            }
            if exists|i: int|
                0 <= i < fog.revealed.len() && #[trigger] fog.revealed@[i]
                    && !old(fog).revealed@[i] {
                let i = choose|i: int|
                    0 <= i < fog.revealed.len() && #[trigger] fog.revealed@[i]
                        && !old(fog).revealed@[i];
                assert(seen@[i]);
                assert(!covered.revealed@[i]);
            }
        }
    }
    let first = !state.initialized;
    state.initialized = true;
    state.last_poll_tile = (state.tile_x, state.tile_y);
    StateUpdate { in_sync, first, redraw_markers: tile_changed && !display.locally_modified }
}

/// Ids of everything that a player carries or wears.
pub open spec fn carried(
    inventory: Seq<InventorySlot>,
    equipment: EquipmentLoadout,
) -> Seq<Seq<char>> {
    let worn = |slot: EquipmentSlot|
        match crate::items::worn(equipment, slot) {
            Some(id) => seq![id],
            None => Seq::empty(),
        };
    inventory.map_values(|slot: InventorySlot| slot.item_id@) + worn(EquipmentSlot::Weapon) + worn(
        EquipmentSlot::Armor,
    ) + worn(EquipmentSlot::Accessory) + worn(EquipmentSlot::Feet) + worn(EquipmentSlot::ToeRings)
}

fn push_worn(ids: &mut Vec<String>, item: &Option<String>)
    ensures
        crate::text::texts(final(ids)@) == crate::text::texts(old(ids)@) + (
        match crate::text::option_text(*item) {
            Some(id) => seq![id],
            None => Seq::empty(),
        }),
{
    match item {
        Some(id) => {
            ids.push(id.clone());
            assert(crate::text::texts(ids@) =~= crate::text::texts(old(ids)@) + seq![id@]);
        },
        None => {
            assert(crate::text::texts(ids@) =~= crate::text::texts(old(ids)@)
                + Seq::<Seq<char>>::empty());
        },
    }
}

/// Ids of everything that the player carries or wears.
pub fn carried_ids(inventory: &Vec<InventorySlot>, equipment: &EquipmentLoadout) -> (ids: Vec<
    String,
>)
    ensures
        crate::text::texts(ids@) == carried(inventory@, *equipment),
{
    let ghost all = inventory@.map_values(|slot: InventorySlot| slot.item_id@);
    let mut ids: Vec<String> = Vec::new();
    let mut i: usize = 0;
    assert(crate::text::texts(ids@) =~= all.take(0));
    while i < inventory.len()
        invariant
            i <= inventory.len(),
            all == inventory@.map_values(|slot: InventorySlot| slot.item_id@),
            crate::text::texts(ids@) == all.take(i as int),
        decreases inventory.len() - i,
    {
        let ghost before = ids@;
        ids.push(inventory[i].item_id.clone());
        assert(crate::text::texts(ids@) =~= crate::text::texts(before).push(all[i as int]));
        i = i + 1;
        assert(crate::text::texts(ids@) =~= all.take(i as int));
    }
    assert(all.take(i as int) =~= all);
    push_worn(&mut ids, equipment.get_slot(EquipmentSlot::Weapon));
    push_worn(&mut ids, equipment.get_slot(EquipmentSlot::Armor));
    push_worn(&mut ids, equipment.get_slot(EquipmentSlot::Accessory));
    push_worn(&mut ids, equipment.get_slot(EquipmentSlot::Feet));
    push_worn(&mut ids, equipment.get_slot(EquipmentSlot::ToeRings));
    ids
}

/// A click on the map.
#[derive(Debug, Clone, Copy)]
pub struct MapClick {
    /// Tile under the cursor.
    pub tile: (usize, usize),
    /// The button was just pressed.
    pub pressed: bool,
    /// Shift extends the route on screen instead of replacing it.
    pub shift: bool,
    /// The cursor is over the interface.
    pub over_ui: bool,
    /// All of the map shows, whatever the fog.
    pub fog_disabled: bool,
}

/// The player's tile, as far as it lies on a map.
pub open spec fn standing_on(state: MyPlayerState) -> (usize, usize) {
    (state.tile_x as usize, state.tile_y as usize)
}

/// The click extends the route on screen.
pub open spec fn extends_route(display: DisplayRoute, click: MapClick) -> bool {
    display.waypoints@.len() > 0 && click.shift
}

/// Where the route for a click starts: at the end of the one on screen when
/// extending it, else where the player stands.
pub open spec fn route_start(
    state: MyPlayerState,
    display: DisplayRoute,
    click: MapClick,
) -> (usize, usize) {
    if extends_route(display, click) {
        display.waypoints@.last()
    } else {
        standing_on(state)
    }
}

/// The click asks for a route: on the overworld, on a visible and walkable
/// tile, to which no route leads yet and on which it would not start.
pub open spec fn click_asks_for_route(
    world: WorldGrid,
    fog: FogOfWar,
    state: MyPlayerState,
    display: DisplayRoute,
    click: MapClick,
) -> bool {
    &&& state.location is None
    &&& click.pressed && !click.over_ui
    &&& crate::terrain::terrain_passable(
        world.terrain_at(click.tile.0 as int, click.tile.1 as int),
    )
    &&& fog.seen(click.tile.0 as int, click.tile.1 as int) || click.fog_disabled
    &&& display.waypoints@.len() > 0 ==> display.waypoints@.last() != click.tile
    &&& route_start(state, display, click) != click.tile
}

/// What a click on the map led to.
pub enum ClickOutcome {
    /// No route was asked for.
    Nothing,
    /// No way leads there. Where an item is missing, the player is told.
    Blocked { message: Option<&'static str> },
    /// The route on screen is longer now.
    Extended,
    /// A new route is on screen. Where the player's tile was on the old one,
    /// so many meters of it were used up before that tile.
    Replaced { walked_before: Option<u64> },
}

/// What the player is told who lacks an item.
pub open spec fn missing_item_text(item: Seq<char>) -> Seq<char> {
    if item == "warm_cloak"@ {
        "It's too cold! You need a Warm Cloak to enter the mountains."@
    } else if item == "bog_charm"@ {
        "The swamp is cursed! You need a Bog Charm to enter."@
    } else {
        "You need a special item to go there."@
    }
}

fn missing_item_message(item: &str) -> (text: &'static str)
    ensures
        text@ == missing_item_text(item@),
{
    if same_text(item, "warm_cloak") {
        "It's too cold! You need a Warm Cloak to enter the mountains."
    } else if same_text(item, "bog_charm") {
        "The swamp is cursed! You need a Bog Charm to enter."
    } else {
        "You need a special item to go there."
    }
}

/// Sum of the server's charges for the first `count` tiles.
fn charges(world: &WorldGrid, route: &Vec<(usize, usize)>, count: usize) -> (meters: u64)
    requires
        world.wf(),
        count <= route.len() <= u32::MAX,
    ensures
        meters == crate::terrain::path::meters_before(*world, route@, count as int),
{
    let mut meters: u64 = 0;
    let mut i: usize = 0;
    while i < count
        invariant
            world.wf(),
            i <= count <= route.len() <= u32::MAX,
            meters == crate::terrain::path::meters_before(*world, route@, i as int),
            meters <= i * (u32::MAX as int),
        decreases count - i,
    {
        let cost: u32 = world.server_tile_cost(route[i].0, route[i].1);
        assert(i * (u32::MAX as int) <= (u32::MAX as int) * (u32::MAX as int))
            by (nonlinear_arith)
            requires
                0 <= i <= u32::MAX,
        ;
        assert((i + 1) * (u32::MAX as int) == i * (u32::MAX as int) + u32::MAX)
            by (nonlinear_arith);
        meters = meters + cost as u64;
        i = i + 1;
    }
    meters
}

/// The tile is the route's `i`-th and none before it.
pub open spec fn first_visit(route: Seq<(usize, usize)>, tile: (usize, usize), i: int) -> bool {
    &&& 0 <= i < route.len()
    &&& route[i] == tile
    &&& forall|j: int| 0 <= j < i ==> route[j] != tile
}

/// Meters of a route used up before its first tile that is the given one.
pub open spec fn is_walked_before(
    world: WorldGrid,
    route: Seq<(usize, usize)>,
    tile: (usize, usize),
    meters: Option<u64>,
) -> bool {
    match meters {
        Some(m) => exists|i: int| #[trigger]
            first_visit(route, tile, i) && m == crate::terrain::path::meters_before(
                world,
                route,
                i,
            ),
        None => !route.contains(tile),
    }
}

fn walked_before(world: &WorldGrid, route: &Vec<(usize, usize)>, tile: (usize, usize)) -> (meters:
    Option<u64>)
    requires
        world.wf(),
        route.len() <= u32::MAX,
    ensures
        is_walked_before(*world, route@, tile, meters),
{
    let mut i: usize = 0;
    while i < route.len()
        invariant
            world.wf(),
            i <= route.len() <= u32::MAX,
            forall|j: int| 0 <= j < i ==> route@[j] != tile,
        decreases route.len() - i,
    {
        if route[i].0 == tile.0 && route[i].1 == tile.1 {
            assert(first_visit(route@, tile, i as int));
            return Some(charges(world, route, i));
        }
        i = i + 1;
    }
    None
}

/// The longer route goes on from the end of the other to the goal, along a
/// best route between the two.
pub open spec fn is_extension(
    world: WorldGrid,
    items: Seq<Seq<char>>,
    route: Seq<(usize, usize)>,
    goal: (usize, usize),
    longer: Seq<(usize, usize)>,
) -> bool {
    exists|segment: Seq<(usize, usize)>| #[trigger]
        crate::terrain::path::is_best_route(world, items, route.last(), goal, segment) && longer
            == route + segment.skip(1)
}

/// Appends a segment to a route whose last tile is the segment's first.
fn append_segment(route: &mut Vec<(usize, usize)>, segment: &Vec<(usize, usize)>)
    requires
        segment.len() > 0,
    ensures
        final(route)@ == old(route)@ + segment@.skip(1),
{
    let ghost before = route@;
    let mut i: usize = 1;
    assert(route@ =~= before + segment@.subrange(1, 1));
    while i < segment.len()
        invariant
            1 <= i <= segment.len(),
            route@ == before + segment@.subrange(1, i as int),
        decreases segment.len() - i,
    {
        route.push(segment[i]);
        i = i + 1;
        assert(route@ =~= before + segment@.subrange(1, i as int));
    }
    assert(segment@.subrange(1, i as int) =~= segment@.skip(1));
}

/// Plans the route for a click on the map, replacing the route on screen or
/// extending it. Clicking the tile that is already the destination changes
/// nothing, so that progress towards it is not lost.
pub fn handle_map_click(
    world: &WorldGrid,
    fog: &FogOfWar,
    click: MapClick,
    state: &mut MyPlayerState,
    display: &mut DisplayRoute,
) -> (outcome: ClickOutcome)
    requires
        world.wf(),
        crate::terrain::path::estimates_fit(*world),
        fog.wf(),
        world.map.contains(old(state).tile_x as int, old(state).tile_y as int),
        old(display).waypoints.len() <= u32::MAX,
        extends_route(*old(display), click) ==> world.map.contains(
            old(display).waypoints@.last().0 as int,
            old(display).waypoints@.last().1 as int,
        ),
    ensures
        ({
            let items = carried(old(state).inventory@, old(state).equipment);
            let start = route_start(*old(state), *old(display), click);
            let asked = click_asks_for_route(*world, *fog, *old(state), *old(display), click);
            let biome = world.map.biome(click.tile.0 as int, click.tile.1 as int);
            match outcome {
                ClickOutcome::Nothing => {
                    &&& !asked
                    &&& *final(state) == *old(state)
                    &&& *final(display) == *old(display)
                },
                ClickOutcome::Blocked { message } => {
                    &&& asked
                    &&& *final(state) == *old(state)
                    &&& *final(display) == *old(display)
                    &&& !crate::terrain::path::may_enter(*world, items, click.tile)
                        || crate::terrain::path::no_route(*world, items, start, click.tile)
                    &&& match world.map.gate(biome) {
                        Some(item) => message matches Some(text) && text@ == missing_item_text(
                            item,
                        ),
                        None => message is None,
                    }
                },
                ClickOutcome::Extended => {
                    &&& asked
                    &&& extends_route(*old(display), click)
                    &&& is_extension(
                        *world,
                        items,
                        old(display).waypoints@,
                        click.tile,
                        final(display).waypoints@,
                    )
                    &&& final(state).route@ == final(display).waypoints@
                    &&& final(display).locally_modified
                },
                ClickOutcome::Replaced { walked_before } => {
                    &&& asked
                    &&& !extends_route(*old(display), click)
                    &&& crate::terrain::path::is_best_route(
                        *world,
                        items,
                        start,
                        click.tile,
                        final(display).waypoints@,
                    )
                    &&& final(state).route@ == final(display).waypoints@
                    &&& final(display).locally_modified
                    &&& is_walked_before(
                        *world,
                        old(display).waypoints@,
                        start,
                        walked_before,
                    )
                },
            }
        }),
        *final(state) == (MyPlayerState { route: final(state).route, ..*old(state) }),
{
    let (tx, ty) = click.tile;
    if state.location.is_some() || !click.pressed || click.over_ui {
        return ClickOutcome::Nothing;
    }
    if !world.get(tx, ty).is_passable() {
        return ClickOutcome::Nothing;
    }
    if !fog.is_revealed(tx, ty) && !click.fog_disabled {
        return ClickOutcome::Nothing;
    }
    let current = (state.tile_x as usize, state.tile_y as usize);
    let shown: usize = display.waypoints.len();
    let extending = shown > 0 && click.shift;
    if shown > 0 {
        let last = display.waypoints[shown - 1];
        if last.0 == tx && last.1 == ty {
            return ClickOutcome::Nothing;
        }
    }
    let start = if extending {
        display.waypoints[shown - 1]
    } else {
        current
    };
    if start.0 == tx && start.1 == ty {
        return ClickOutcome::Nothing;
    }
    let ids = carried_ids(&state.inventory, &state.equipment);
    let segment = match find_path_with_items(world, start, (tx, ty), ids.as_slice()) {
        Some(segment) => segment,
        None => {
            let biome = world.map.biome_at(tx, ty);
            let message = match &world.map.required_items[biome.code() as usize] {
                Some(item) => Some(missing_item_message(item.as_str())),
                None => None,
            };
            return ClickOutcome::Blocked { message };
        },
    };
    display.locally_modified = true;
    if extending {
        append_segment(&mut display.waypoints, &segment);
        state.route = copy_route(&display.waypoints);
        assert(is_extension(
            *world,
            carried(old(state).inventory@, old(state).equipment),
            old(display).waypoints@,
            click.tile,
            display.waypoints@,
        ));
        ClickOutcome::Extended
    } else {
        let walked = walked_before(world, &display.waypoints, current);
        state.route = copy_route(&segment);
        display.waypoints = segment;
        ClickOutcome::Replaced { walked_before: walked }
    }
}

/// Clears the route, leaving the player on the tile of it that the whole
/// meters walked lead to.
pub fn handle_clear_route(
    world: &WorldGrid,
    meters: i64,
    state: &mut MyPlayerState,
    display: &mut DisplayRoute,
)
    requires
        world.wf(),
    ensures
        final(display).waypoints@.len() == 0,
        final(display).locally_modified,
        final(state).route@.len() == 0,
        if old(state).route@.len() == 0 {
            final(state).tile_x == old(state).tile_x && final(state).tile_y == old(state).tile_y
        } else {
            exists|i: int|
                {
                    let tile = old(state).route@[if i < old(state).route@.len() {
                        i
                    } else {
                        old(state).route@.len() - 1
                    }];
                    &&& #[trigger] crate::terrain::path::stops_at(
                        *world,
                        old(state).route@,
                        meters as int,
                        i,
                    )
                    &&& final(state).tile_x == tile.0 as i32
                    &&& final(state).tile_y == tile.1 as i32
                }
        },
        *final(state) == (MyPlayerState {
            route: final(state).route,
            tile_x: final(state).tile_x,
            tile_y: final(state).tile_y,
            ..*old(state)
        }),
{
    if state.route.len() > 0 {
        let index: usize = crate::terrain::path::tile_index_from_meters(
            state.route.as_slice(),
            meters,
            world,
        );
        let (tx, ty) = state.route[index];
        state.tile_x = tx as i32;
        state.tile_y = ty as i32;
    }
    display.waypoints = Vec::new();
    display.locally_modified = true;
    state.route = Vec::new();
}

/// The player's own row, if it is reported.
pub open spec fn own_row(players: Seq<PlayerRow>, my_id: Seq<char>) -> Option<PlayerRow>
    decreases players.len(),
{
    if players.len() == 0 {
        None
    } else if players[0].id@ == my_id {
        Some(players[0])
    } else {
        own_row(players.drop_first(), my_id)
    }
}

/// Where a player is: in which interior, if any.
pub open spec fn place_of(row: Option<PlayerRow>) -> Option<Seq<char>> {
    match row {
        Some(r) => crate::text::option_text(r.location),
        None => None,
    }
}

/// The adventure of a player; empty where it is not known.
pub open spec fn adventure_of(row: Option<PlayerRow>) -> Seq<char> {
    match row {
        Some(r) => r.adventure_id@,
        None => Seq::empty(),
    }
}

/// Somebody else who is at the same place in the same adventure. While the own
/// adventure is not known, all adventures count as the same.
pub open spec fn is_co_located(players: Seq<PlayerRow>, my_id: Seq<char>, other: PlayerRow) -> bool {
    let me = own_row(players, my_id);
    &&& other.id@ != my_id
    &&& crate::text::option_text(other.location) == place_of(me)
    &&& adventure_of(me).len() == 0 || other.adventure_id@ == adventure_of(me)
}

/// Somebody else who is at the same place.
pub open spec fn is_at_same_place(
    players: Seq<PlayerRow>,
    my_id: Seq<char>,
    other: PlayerRow,
) -> bool {
    &&& other.id@ != my_id
    &&& crate::text::option_text(other.location) == place_of(own_row(players, my_id))
}

fn find_own_row<'a>(players: &'a Vec<PlayerRow>, my_id: &str) -> (row: Option<&'a PlayerRow>)
    ensures
        match row {
            Some(r) => own_row(players@, my_id@) == Some(*r),
            None => own_row(players@, my_id@) is None,
        },
{
    let mut i: usize = 0;
    assert(players@.skip(0) =~= players@);
    while i < players.len()
        invariant
            i <= players.len(),
            own_row(players@, my_id@) == own_row(players@.skip(i as int), my_id@),
        decreases players.len() - i,
    {
        let ghost rest = players@.skip(i as int);
        assert(rest[0] == players@[i as int]);
        assert(rest.drop_first() =~= players@.skip(i + 1));
        if same_text(players[i].id.as_str(), my_id) {
            return Some(&players[i]);
        }
        i = i + 1;
    }
    None
}

/// Which of the reported players are drawn on the map: those at the same place
/// in the same adventure. Overworld, interiors and adventures share their
/// coordinates, so anybody else would show where they are not.
pub fn co_located(players: &Vec<PlayerRow>, my_id: &str) -> (shown: Vec<bool>)
    ensures
        shown.len() == players.len(),
        forall|i: int|
            0 <= i < players.len() ==> #[trigger] shown@[i] == is_co_located(
                players@,
                my_id@,
                players@[i],
            ),
{
    let me = find_own_row(players, my_id);
    let my_place: Option<String> = match me {
        Some(row) => match &row.location {
            Some(place) => Some(place.clone()),
            None => None,
        },
        None => None,
    };
    let my_adventure: String = match me {
        Some(row) => row.adventure_id.clone(),
        None => String::new(),
    };
    let mut shown: Vec<bool> = Vec::new();
    let mut i: usize = 0;
    while i < players.len()
        invariant
            i <= players.len(),
            shown.len() == i,
            crate::text::option_text(my_place) == place_of(own_row(players@, my_id@)),
            my_adventure@ == adventure_of(own_row(players@, my_id@)),
            forall|j: int|
                0 <= j < i ==> #[trigger] shown@[j] == is_co_located(players@, my_id@, players@[j]),
        decreases players.len() - i,
    {
        let other = &players[i];
        shown.push(
            !same_text(other.id.as_str(), my_id) && same_option_text(&other.location, &my_place)
                && (my_adventure.as_str().is_empty() || same_text(
                other.adventure_id.as_str(),
                my_adventure.as_str(),
            )),
        );
        i = i + 1;
    }
    shown
}

/// Which of the reported players show as dots on the minimap: all others at
/// the same place.
pub fn at_same_place(players: &Vec<PlayerRow>, my_id: &str) -> (shown: Vec<bool>)
    ensures
        shown.len() == players.len(),
        forall|i: int|
            0 <= i < players.len() ==> #[trigger] shown@[i] == is_at_same_place(
                players@,
                my_id@,
                players@[i],
            ),
{
    let my_place: Option<String> = match find_own_row(players, my_id) {
        Some(row) => match &row.location {
            Some(place) => Some(place.clone()),
            None => None,
        },
        None => None,
    };
    let mut shown: Vec<bool> = Vec::new();
    let mut i: usize = 0;
    while i < players.len()
        invariant
            i <= players.len(),
            shown.len() == i,
            crate::text::option_text(my_place) == place_of(own_row(players@, my_id@)),
            forall|j: int|
                0 <= j < i ==> #[trigger] shown@[j] == is_at_same_place(
                    players@,
                    my_id@,
                    players@[j],
                ),
        decreases players.len() - i,
    {
        let other = &players[i];
        shown.push(
            !same_text(other.id.as_str(), my_id) && same_option_text(&other.location, &my_place),
        );
        i = i + 1;
    }
    shown
}

/// A player never shows to themselves, and nobody shows across places.
pub proof fn nobody_shows_across_places(
    players: Seq<PlayerRow>,
    my_id: Seq<char>,
    other: PlayerRow,
)
    requires
        is_co_located(players, my_id, other),
    ensures
        is_at_same_place(players, my_id, other),
        other.id@ != my_id,
        own_row(players, my_id) matches Some(me) ==> crate::text::option_text(other.location)
            == crate::text::option_text(me.location),
{
}

/// Id under which an opened chest of the map is remembered.
pub fn chest_id(index: usize) -> (id: String)
    ensures
        id@ == "chest_"@ + crate::text::decimal_text(index as nat),
{
    let mut id = String::from_str("chest_");
    append_decimal(&mut id, index as u64);
    id
}

/// Id under which a defeated monster of the map is remembered.
pub fn map_monster_id(index: usize) -> (id: String)
    ensures
        id@ == "monster_"@ + crate::text::decimal_text(index as nat),
{
    let mut id = String::from_str("monster_");
    append_decimal(&mut id, index as u64);
    id
}

/// What the tile under the cursor says about itself: nothing unless asked,
/// and nothing of a tile still in the fog.
pub fn tile_info(
    world: &WorldGrid,
    fog: &FogOfWar,
    tile: (usize, usize),
    asked: bool,
    fog_disabled: bool,
) -> (info: String)
    requires
        world.wf(),
        fog.wf(),
    ensures
        ({
            let terrain = world.terrain_at(tile.0 as int, tile.1 as int);
            info@ == (if !asked {
                ""@
            } else if !fog.seen(tile.0 as int, tile.1 as int) && !fog_disabled {
                "???"@
            } else if crate::terrain::terrain_passable(terrain) {
                crate::terrain::terrain_name(terrain) + " "@ + crate::text::decimal_text(
                    crate::terrain::terrain_cost(terrain) as nat,
                ) + "m"@
            } else {
                crate::terrain::terrain_name(terrain) + " "@ + "impassable"@
            })
        }),
{
    if !asked {
        return String::from_str("");
    }
    if !fog.is_revealed(tile.0, tile.1) && !fog_disabled {
        return String::from_str("???");
    }
    let terrain = world.get(tile.0, tile.1);
    let mut info = String::from_str(terrain.name());
    info.append(" ");
    if terrain.is_passable() {
        append_decimal(&mut info, terrain.movement_cost() as u64);
        info.append("m");
    } else {
        info.append("impassable");
    }
    info
}

/// First tile of a route whose marker is drawn, once the tiles up to
/// `skip_until` have been walked.
pub fn first_marker(skip_until: usize, len: usize) -> (start: usize)
    requires
        skip_until < usize::MAX,
    ensures
        start == (if skip_until + 1 < len {
            skip_until + 1
        } else {
            len as int
        }),
{
    if skip_until + 1 < len {
        skip_until + 1
    } else {
        len
    }
}

/// Pixels at which the dashes of a line start: four drawn, six left out.
pub fn dash_starts(length: u32) -> (starts: Vec<u32>)
    requires
        length <= 1_000_000_000,
    ensures
        starts.len() == (length + 9) / 10,
        forall|i: int| 0 <= i < starts.len() ==> #[trigger] starts@[i] == 10 * i,
{
    let mut starts: Vec<u32> = Vec::new();
    let mut at: u32 = 0;
    while at < length
        invariant
            at == 10 * starts.len(),
            at <= length + 9,
            length <= 1_000_000_000,
            forall|i: int| 0 <= i < starts.len() ==> #[trigger] starts@[i] == 10 * i,
        decreases length + 10 - at,
    {
        starts.push(at);
        at = at + 10;
    }
    starts
}

/// Walking on along a best route to another goal keeps a route a route.
pub proof fn extended_route_is_a_route(
    world: WorldGrid,
    items: Seq<Seq<char>>,
    start: (usize, usize),
    route: Seq<(usize, usize)>,
    goal: (usize, usize),
    longer: Seq<(usize, usize)>,
)
    requires
        route.len() > 0,
        crate::terrain::path::is_route(world, items, start, route.last(), route),
        is_extension(world, items, route, goal, longer),
    ensures
        crate::terrain::path::is_route(world, items, start, goal, longer),
{
    let segment = choose|segment: Seq<(usize, usize)>| #[trigger]
        crate::terrain::path::is_best_route(world, items, route.last(), goal, segment) && longer
            == route + segment.skip(1);
    let open = crate::terrain::path::enterable(world, items);
    assert forall|i: int| 0 < i < longer.len() implies crate::terrain::search::adjacent(
        longer[i - 1],
        #[trigger] longer[i],
    ) && open(longer[i]) by {
        if i < route.len() {
            assert(longer[i] == route[i]);
            assert(longer[i - 1] == route[i - 1]);
        } else {
            let k = i - route.len() + 1;
            assert(longer[i] == segment[k]);
            assert(crate::terrain::search::adjacent(segment[k - 1], segment[k]) && open(segment[k]));
            if k > 1 {
                assert(longer[i - 1] == segment[k - 1]);
            }
        }
    }
    assert(longer[0] == route[0]);
    if segment.len() == 1 {
        assert(longer =~= route);
    } else {
        assert(longer.last() == segment.last());
    }
}

/// Every chest and every monster of the map is remembered under an id of its
/// own.
pub proof fn map_ids_are_distinct(i: nat, j: nat)
    ensures
        "chest_"@ + crate::text::decimal_text(i) == "chest_"@ + crate::text::decimal_text(j) ==> i
            == j,
        "monster_"@ + crate::text::decimal_text(i) == "monster_"@ + crate::text::decimal_text(j)
            ==> i == j,
{
    let a = crate::text::decimal_text(i);
    let b = crate::text::decimal_text(j);
    if "chest_"@ + a == "chest_"@ + b {
        let n = "chest_"@.len() as int;
        assert(("chest_"@ + a).skip(n) =~= a);
        assert(("chest_"@ + b).skip(n) =~= b);
        crate::text::decimals_tell_numbers_apart(i, j);
    }
    if "monster_"@ + a == "monster_"@ + b {
        let n = "monster_"@.len() as int;
        assert(("monster_"@ + a).skip(n) =~= a);
        assert(("monster_"@ + b).skip(n) =~= b);
        crate::text::decimals_tell_numbers_apart(i, j);
    }
}

/// A local change that waits for the server: a report without a planned route
/// settles nothing, one of an empty route settles it only where the route on
/// screen is empty too, and one of a route only where it is the very route
/// that is walked. Whatever is reported meanwhile, nothing planned is lost.
pub proof fn only_the_same_route_confirms(
    routes: Routes,
    text: Seq<char>,
    parsed: Option<Seq<(usize, usize)>>,
)
    requires
        routes.locally_modified,
    ensures
        ({
            let unsaid = after_route_report(routes, None, parsed);
            let empty = after_route_report(routes, Some(Seq::empty()), parsed);
            let said = after_route_report(routes, Some(text), parsed);
            &&& unsaid.locally_modified
            &&& empty.locally_modified <==> routes.shown.len() > 0
            &&& text.len() > 0 && parsed is None ==> said.locally_modified
            &&& text.len() > 0 && parsed is Some ==> (said.locally_modified <==> parsed->0
                != routes.walked)
            &&& unsaid.walked == routes.walked && unsaid.shown == routes.shown
            &&& empty.walked == routes.walked && empty.shown == routes.shown
            &&& said.walked == routes.walked && said.shown == routes.shown
        }),
{
}

/// Reports of an empty route, however many, never erase a route that the player
/// has planned and the server has not taken in yet.
pub proof fn planned_route_outlasts_empty_reports(
    routes: Routes,
    parsed: Option<Seq<(usize, usize)>>,
    again: Option<Seq<(usize, usize)>>,
)
    requires
        routes.locally_modified,
        routes.shown.len() > 0,
    ensures
        ({
            let once = after_route_report(routes, Some(Seq::empty()), parsed);
            let twice = after_route_report(once, Some(Seq::empty()), again);
            once == routes && twice == routes
        }),
{
    let once = after_route_report(routes, Some(Seq::empty()), parsed);
    assert(once =~= routes);
}

/// Where nothing was changed locally, what the server reports is on screen and
/// being walked; a report that says nothing, or nothing that can be read,
/// changes nothing; and no report makes a local change.
pub proof fn unchanged_routes_follow_the_server(
    routes: Routes,
    planned: Option<Seq<char>>,
    parsed: Option<Seq<(usize, usize)>>,
)
    requires
        !routes.locally_modified,
    ensures
        ({
            let after = after_route_report(routes, planned, parsed);
            &&& !after.locally_modified
            &&& planned is None ==> after.walked == routes.walked && after.shown == routes.shown
            &&& planned is Some && planned->0.len() == 0 ==> after.walked.len() == 0
                && after.shown.len() == 0
            &&& planned is Some && planned->0.len() > 0 && parsed is Some ==> after.walked
                == parsed->0 && after.shown == parsed->0
            &&& planned is Some && planned->0.len() > 0 && parsed is None ==> after.walked
                == routes.walked && after.shown == routes.shown
        }),
{
}

/// A row puts the player on the tile that it names, and counts a missing
/// coordinate as zero.
pub proof fn rows_name_a_tile(row: PlayerRow)
    ensures
        row.map_tile_x matches Some(x) ==> reported_tile(row).0 == x,
        row.map_tile_y matches Some(y) ==> reported_tile(row).1 == y,
        row.map_tile_x is None ==> reported_tile(row).0 == 0,
        row.map_tile_y is None ==> reported_tile(row).1 == 0,
{
}

/// The adventure is switched exactly where one was known and another is
/// reported; a row without an adventure leaves the known one.
pub proof fn adventures_switch_once_named(row: PlayerRow, before: Seq<char>)
    ensures
        adventure_switched(row, before) <==> before.len() > 0 && row.adventure_id@.len() > 0
            && row.adventure_id@ != before,
        row.adventure_id@.len() > 0 ==> reported_adventure(row, before) == row.adventure_id@,
        row.adventure_id@.len() == 0 ==> reported_adventure(row, before) == before,
{
}

/// A player carries exactly what is in a stack or worn in one of the five
/// slots.
pub proof fn carried_is_stacked_or_worn(
    inventory: Seq<InventorySlot>,
    equipment: EquipmentLoadout,
    id: Seq<char>,
)
    ensures
        carried(inventory, equipment).contains(id) <==> {
            ||| exists|i: int| 0 <= i < inventory.len() && (#[trigger] inventory[i]).item_id@ == id
            ||| equipment.weapon matches Some(item) && item@ == id
            ||| equipment.armor matches Some(item) && item@ == id
            ||| equipment.accessory matches Some(item) && item@ == id
            ||| equipment.feet matches Some(item) && item@ == id
            ||| equipment.toe_rings matches Some(item) && item@ == id
        },
{
    let one = |item: Option<String>|
        match item {
            Some(id) => seq![id@],
            None => Seq::<Seq<char>>::empty(),
        };
    let stacks = inventory.map_values(|slot: InventorySlot| slot.item_id@);
    let all = carried(inventory, equipment);
    let a = stacks + one(equipment.weapon);
    let b = a + one(equipment.armor);
    let c = b + one(equipment.accessory);
    let d = c + one(equipment.feet);
    assert(all =~= d + one(equipment.toe_rings));
    lemma_contains_sum(stacks, one(equipment.weapon), id);
    lemma_contains_sum(a, one(equipment.armor), id);
    lemma_contains_sum(b, one(equipment.accessory), id);
    lemma_contains_sum(c, one(equipment.feet), id);
    lemma_contains_sum(d, one(equipment.toe_rings), id);
    assert forall|item: Option<String>| #[trigger] one(item).contains(id) <==> (item is Some
        && item->0@ == id) by {
        if item is Some {
            assert(one(item)[0] == item->0@);
        }
    }
    if stacks.contains(id) {
        let i = choose|i: int| 0 <= i < stacks.len() && stacks[i] == id;
        assert(inventory[i].item_id@ == id);
    }
    if exists|i: int| 0 <= i < inventory.len() && (#[trigger] inventory[i]).item_id@ == id {
        let i = choose|i: int|
            0 <= i < inventory.len() && (#[trigger] inventory[i]).item_id@ == id;
        assert(stacks[i] == id);
    }
}

proof fn lemma_contains_sum(a: Seq<Seq<char>>, b: Seq<Seq<char>>, id: Seq<char>)
    ensures
        (a + b).contains(id) <==> a.contains(id) || b.contains(id),
{
    if a.contains(id) {
        let i = choose|i: int| 0 <= i < a.len() && a[i] == id;
        assert((a + b)[i] == id);
    }
    if b.contains(id) {
        let i = choose|i: int| 0 <= i < b.len() && b[i] == id;
        assert((a + b)[a.len() + i] == id);
    }
}

/// A click asks for a route exactly where it falls on the overworld, on a tile
/// of the map that is not open water, that has been seen or shows anyway, on
/// which no route ends already and on which the new one would not start. It
/// starts where the player stands, or at the end of the route on screen with
/// shift held.
pub proof fn which_clicks_ask_for_a_route(
    world: WorldGrid,
    fog: FogOfWar,
    state: MyPlayerState,
    display: DisplayRoute,
    click: MapClick,
)
    requires
        world.wf(),
    ensures
        ({
            let (x, y) = click.tile;
            let n = display.waypoints@.len() as int;
            let start = if n > 0 && click.shift {
                display.waypoints@[n - 1]
            } else {
                (state.tile_x as usize, state.tile_y as usize)
            };
            &&& route_start(state, display, click) == start
            &&& click_asks_for_route(world, fog, state, display, click) <==> {
                &&& state.location is None
                &&& click.pressed
                &&& !click.over_ui
                &&& x < world.width
                &&& y < world.height
                &&& world.cells@[y as int]@[x as int].ground != crate::terrain::Ground::Water
                    || world.cells@[y as int]@[x as int].overlay == Some(
                    crate::terrain::Overlay::Bridge,
                )
                &&& fog.seen(x as int, y as int) || click.fog_disabled
                &&& n == 0 || display.waypoints@[n - 1] != (x, y)
                &&& start != (x, y)
            }
        }),
{
}

/// What the player is told names the item that is missing where it is one of
/// the two that have a reason of their own.
pub proof fn missing_items_are_named(item: Seq<char>)
    ensures
        item == "warm_cloak"@ <==> missing_item_text(item)
            == "It's too cold! You need a Warm Cloak to enter the mountains."@,
        item == "bog_charm"@ <==> missing_item_text(item)
            == "The swamp is cursed! You need a Bog Charm to enter."@,
        item != "warm_cloak"@ && item != "bog_charm"@ <==> missing_item_text(item)
            == "You need a special item to go there."@,
{
    reveal_strlit("warm_cloak");
    reveal_strlit("bog_charm");
    reveal_strlit("It's too cold! You need a Warm Cloak to enter the mountains.");
    reveal_strlit("The swamp is cursed! You need a Bog Charm to enter.");
    reveal_strlit("You need a special item to go there.");
    assert("warm_cloak"@.len() != "bog_charm"@.len());
    assert("It's too cold! You need a Warm Cloak to enter the mountains."@[0] == 'I');
    assert("The swamp is cursed! You need a Bog Charm to enter."@[0] == 'T');
    assert("You need a special item to go there."@[0] == 'Y');
}

/// The meters used up before a tile of the old route: none on its first tile,
/// else the server's charge for that one and what the rest of the route uses
/// up; a tile that the route does not touch has no such meters.
pub proof fn meters_before_a_tile(
    world: WorldGrid,
    route: Seq<(usize, usize)>,
    tile: (usize, usize),
    meters: Option<u64>,
)
    requires
        world.wf(),
        is_walked_before(world, route, tile, meters),
    ensures
        meters is Some <==> route.contains(tile),
        route.len() > 0 && route[0] == tile ==> meters == Some(0u64),
        route.len() > 0 && route[0] != tile && world.map.contains(
            route[0].0 as int,
            route[0].1 as int,
        ) && meters is Some ==> {
            let charge = world.map.step_costs@[route[0].1 * world.width + route[0].0];
            meters->0 >= charge && is_walked_before(
                world,
                route.drop_first(),
                tile,
                Some((meters->0 - charge) as u64),
            )
        },
{
    if meters is Some {
        let i = choose|i: int| #[trigger]
            first_visit(route, tile, i) && meters->0 == crate::terrain::path::meters_before(
                world,
                route,
                i,
            );
        assert(route[i] == tile);
        assert(crate::terrain::path::meters_before(world, route, 0) == 0);
        if route[0] != tile && world.map.contains(route[0].0 as int, route[0].1 as int) {
            let rest = route.drop_first();
            crate::terrain::path::lemma_meters_behind_first(world, route, i - 1);
            assert(first_visit(rest, tile, i - 1)) by {
                assert(rest[i - 1] == tile);
                assert forall|j: int| 0 <= j < i - 1 implies rest[j] != tile by {
                    assert(rest[j] == route[j + 1]);
                }
            }
        }
    }
}

/// An extended route begins with the old one and goes on, step by step, to the
/// tile clicked.
pub proof fn extended_route_begins_with_the_old_one(
    world: WorldGrid,
    items: Seq<Seq<char>>,
    route: Seq<(usize, usize)>,
    goal: (usize, usize),
    longer: Seq<(usize, usize)>,
)
    requires
        route.len() > 0,
        route.last() != goal,
        is_extension(world, items, route, goal, longer),
    ensures
        longer.len() > route.len(),
        longer.take(route.len() as int) == route,
        longer.last() == goal,
{
    let segment = choose|segment: Seq<(usize, usize)>| #[trigger]
        crate::terrain::path::is_best_route(world, items, route.last(), goal, segment) && longer
            == route + segment.skip(1);
    assert(segment.len() > 1);
    assert(longer.take(route.len() as int) =~= route);
    assert(longer.last() == segment.last());
}

proof fn lemma_own_row(players: Seq<PlayerRow>, my_id: Seq<char>, i: int)
    requires
        0 <= i <= players.len(),
        i < players.len() ==> players[i].id@ == my_id,
        forall|j: int| 0 <= j < i ==> (#[trigger] players[j]).id@ != my_id,
    ensures
        own_row(players, my_id) == (if i < players.len() {
            Some(players[i])
        } else {
            None
        }),
    decreases i,
{
    if i > 0 {
        let rest = players.drop_first();
        assert(players[0].id@ != my_id);
        assert forall|j: int| 0 <= j < i - 1 implies (#[trigger] rest[j]).id@ != my_id by {
            assert(rest[j] == players[j + 1]);
        }
        lemma_own_row(rest, my_id, i - 1);
    }
}

/// Others are drawn exactly where they are somebody else in the same interior,
/// or on the overworld like the player, and in the player's adventure as soon
/// as that is known; on the minimap the adventure makes no difference.
pub proof fn who_is_drawn(players: Seq<PlayerRow>, i: int, other: PlayerRow)
    requires
        0 <= i < players.len(),
        forall|j: int| 0 <= j < i ==> (#[trigger] players[j]).id@ != players[i].id@,
    ensures
        ({
            let me = players[i];
            let same_place = match (me.location, other.location) {
                (None, None) => true,
                (Some(a), Some(b)) => a@ == b@,
                _ => false,
            };
            &&& is_at_same_place(players, me.id@, other) <==> other.id@ != me.id@ && same_place
            &&& is_co_located(players, me.id@, other) <==> other.id@ != me.id@ && same_place && (
            me.adventure_id@.len() == 0 || other.adventure_id@ == me.adventure_id@)
        }),
{
    lemma_own_row(players, players[i].id@, i);
}

/// While the player's own row is missing, all others on the overworld are
/// drawn.
pub proof fn who_is_drawn_to_a_stranger(
    players: Seq<PlayerRow>,
    my_id: Seq<char>,
    other: PlayerRow,
)
    requires
        forall|j: int| 0 <= j < players.len() ==> (#[trigger] players[j]).id@ != my_id,
    ensures
        is_at_same_place(players, my_id, other) <==> other.id@ != my_id && other.location is None,
        is_co_located(players, my_id, other) <==> other.id@ != my_id && other.location is None,
{
    lemma_own_row(players, my_id, players.len() as int);
}

/// The routes are that of the player's state and the one on screen.
pub proof fn both_routes_count(state: MyPlayerState, display: DisplayRoute)
    ensures
        routes_of(state, display).walked == state.route@,
        routes_of(state, display).shown == display.waypoints@,
        routes_of(state, display).locally_modified == display.locally_modified,
        forall|route: Vec<(usize, usize)>| #[trigger] route_of(Some(route)) == Some(route@),
        route_of(None) is None,
{
}

/// A click with the shift key extends the route that there is; any other click
/// starts a new one where the player stands.
pub proof fn where_routes_start(state: MyPlayerState, display: DisplayRoute, click: MapClick)
    ensures
        extends_route(display, click) <==> click.shift && display.waypoints@.len() > 0,
        click.shift && display.waypoints@.len() > 0 ==> route_start(state, display, click)
            == display.waypoints@.last(),
        !click.shift || display.waypoints@.len() == 0 ==> route_start(state, display, click) == (
            state.tile_x as usize,
            state.tile_y as usize,
        ),
{
}

} // verus!
