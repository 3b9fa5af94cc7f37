//! Shops: what is offered, what can be sold, and what a click asks for.

use vstd::prelude::*;
use vstd::string::StringExecFns;

use crate::items::{
    stack_label, stack_of, EquipmentLoadout, InventorySlot, ItemCatalog, ItemCategory,
};
use crate::text::{append_signed, same_text};

verus! {

#[derive(Debug, Clone)]
pub struct ShopItem {
    pub item_id: String,
    pub cost: i32,
}

pub struct ShopState {
    pub active: bool,
    pub event_id: String,
    pub merchant_name: String,
    pub items: Vec<ShopItem>,
    /// A shop is available at the current location.
    pub available: bool,
}

/// Content of the shop.
#[verifier::ext_equal]
pub struct Shop {
    pub active: bool,
    pub event_id: Seq<char>,
    pub merchant: Seq<char>,
    pub items: Seq<(Seq<char>, i32)>,
    pub available: bool,
}

/// Ids and costs of offered items.
pub open spec fn wares(items: Seq<ShopItem>) -> Seq<(Seq<char>, i32)> {
    items.map_values(|item: ShopItem| (item.item_id@, item.cost))
}

impl View for ShopState {
    type V = Shop;

    open spec fn view(&self) -> Shop {
        Shop {
            active: self.active,
            event_id: self.event_id@,
            merchant: self.merchant_name@,
            items: wares(self.items@),
            available: self.available,
        }
    }
}

impl Default for ShopState {
    fn default() -> (state: ShopState)
        ensures
            !state.active,
            !state.available,
            state@.items.len() == 0,
            state@.event_id.len() == 0,
            state@.merchant.len() == 0,
    {
        ShopState {
            active: false,
            event_id: String::new(),
            merchant_name: String::new(),
            items: Vec::new(),
            available: false,
        }
    }
}

/// What the player has when standing in a shop.
pub struct Customer<'a> {
    pub gold: i32,
    pub inventory: &'a Vec<InventorySlot>,
    pub equipment: &'a EquipmentLoadout,
}

/// A row of the shop panel.
pub struct ShopRow {
    pub item_id: String,
    pub label: String,
    pub price: String,
    /// Whether the row looks available.
    pub enabled: bool,
}

/// Content of a row.
#[verifier::ext_equal]
pub struct Row {
    pub item_id: Seq<char>,
    pub label: Seq<char>,
    pub price: Seq<char>,
    pub enabled: bool,
}

impl View for ShopRow {
    type V = Row;

    open spec fn view(&self) -> Row {
        Row {
            item_id: self.item_id@,
            label: self.label@,
            price: self.price@,
            enabled: self.enabled,
        }
    }
}

/// Contents of rows.
pub open spec fn rows(list: Seq<ShopRow>) -> Seq<Row> {
    list.map_values(|row: ShopRow| row@)
}

/// The shop panel, from top to bottom.
pub struct ShopPanel {
    pub merchant: String,
    pub gold: String,
    pub offers: Vec<ShopRow>,
    /// Empty where the player has nothing to sell.
    pub sales: Vec<ShopRow>,
}

/// No more of the item can be bought: it is worn, or the stack carried is at
/// its limit. What does not stack, and what the catalog does not know, is
/// carried once.
pub open spec fn is_full(customer: Customer, catalog: ItemCatalog, id: Seq<char>) -> bool {
    crate::items::wears(*customer.equipment, id) || match crate::items::find_stack(
        customer.inventory@,
        id,
    ) {
        Some(stack) => stack.quantity >= (match crate::items::find_item(catalog.items@, id) {
            Some(def) => if def.stackable {
                def.max_stack
            } else {
                1
            },
            None => 1,
        }),
        None => false,
    }
}

/// The row of an offered item.
pub open spec fn offer_row(
    ware: (Seq<char>, i32),
    customer: Customer,
    catalog: ItemCatalog,
) -> Row {
    let full = is_full(customer, catalog, ware.0);
    let name = crate::items::item_name(catalog, ware.0);
    Row {
        item_id: ware.0,
        label: if full {
            name + " (full)"@
        } else {
            name
        },
        price: crate::text::signed_text(ware.1 as int) + " gold"@,
        enabled: customer.gold >= ware.1 && !full,
    }
}

/// Usual shop price of an item.
pub open spec fn base_price(id: Seq<char>) -> i32 {
    if id == "wooden_club"@ {
        40
    } else if id == "iron_sword"@ {
        120
    } else if id == "fire_blade"@ {
        200
    } else if id == "frost_axe"@ {
        180
    } else if id == "leather_vest"@ {
        50
    } else if id == "chainmail"@ {
        150
    } else if id == "dragonscale_armor"@ {
        300
    } else if id == "warm_cloak"@ {
        60
    } else if id == "bog_charm"@ {
        60
    } else if id == "ring_of_vigor"@ {
        100
    } else if id == "berserker_pendant"@ {
        80
    } else if id == "health_potion"@ {
        30
    } else if id == "greater_health_potion"@ {
        60
    } else if id == "speed_potion"@ {
        80
    } else if id == "mystery_potion"@ {
        40
    } else if id == "battle_elixir"@ {
        120
    } else if id == "torch"@ {
        20
    } else if id == "compass"@ {
        60
    } else if id == "explorers_map"@ {
        180
    } else {
        20
    }
}

/// A shop pays half the usual price, but never less than five gold.
pub open spec fn sale_price(id: Seq<char>) -> i32 {
    if base_price(id) / 2 < 5 {
        5
    } else {
        (base_price(id) / 2) as i32
    }
}

/// A shop buys what the catalog knows and does not hold for a key item.
pub open spec fn sellable(catalog: ItemCatalog, id: Seq<char>) -> bool {
    match crate::items::find_item(catalog.items@, id) {
        Some(def) => def.category != ItemCategory::KeyItem,
        None => false,
    }
}

/// The row of a stack that can be sold.
pub open spec fn sale_row(slot: InventorySlot, catalog: ItemCatalog) -> Row {
    Row {
        item_id: slot.item_id@,
        label: crate::items::stack_text(
            crate::items::item_name(catalog, slot.item_id@),
            slot.quantity,
        ),
        price: "+"@ + crate::text::signed_text(sale_price(slot.item_id@) as int) + " gold"@,
        enabled: true,
    }
}

/// The rows of the stacks that can be sold, in the order in which the player
/// carries them.
pub open spec fn sale_rows(inventory: Seq<InventorySlot>, catalog: ItemCatalog) -> Seq<Row>
    decreases inventory.len(),
{
    if inventory.len() == 0 {
        Seq::empty()
    } else {
        let before = sale_rows(inventory.drop_last(), catalog);
        if sellable(catalog, inventory.last().item_id@) {
            before.push(sale_row(inventory.last(), catalog))
        } else {
            before
        }
    }
}

fn full(customer: &Customer, catalog: &ItemCatalog, id: &str) -> (full: bool)
    ensures
        full == is_full(*customer, *catalog, id@),
{
    if customer.equipment.has_equipped(id) {
        return true;
    }
    match stack_of(customer.inventory, id) {
        Some(stack) => {
            let max: u32 = match catalog.get(id) {
                Some(def) => if def.stackable {
                    def.max_stack
                } else {
                    1
                },
                None => 1,
            };
            stack.quantity >= max
        },
        None => false,
    }
}

/// Sell price: half the cheapest shop price for that item, minimum 5 gold.
pub fn sell_price(item_id: &str) -> (price: i32)
    ensures
        price == sale_price(item_id@),
{
    let base: i32 = if same_text(item_id, "wooden_club") {
        40
    } else if same_text(item_id, "iron_sword") {
        120
    } else if same_text(item_id, "fire_blade") {
        200
    } else if same_text(item_id, "frost_axe") {
        180
    } else if same_text(item_id, "leather_vest") {
        50
    } else if same_text(item_id, "chainmail") {
        150
    } else if same_text(item_id, "dragonscale_armor") {
        300
    } else if same_text(item_id, "warm_cloak") {
        60
    } else if same_text(item_id, "bog_charm") {
        60
    } else if same_text(item_id, "ring_of_vigor") {
        100
    } else if same_text(item_id, "berserker_pendant") {
        80
    } else if same_text(item_id, "health_potion") {
        30
    } else if same_text(item_id, "greater_health_potion") {
        60
    } else if same_text(item_id, "speed_potion") {
        80
    } else if same_text(item_id, "mystery_potion") {
        40
    } else if same_text(item_id, "battle_elixir") {
        120
    } else if same_text(item_id, "torch") {
        20
    } else if same_text(item_id, "compass") {
        60
    } else if same_text(item_id, "explorers_map") {
        180
    } else {
        20
    };
    if base / 2 < 5 {
        5
    } else {
        base / 2
    }
}

fn build_offer(item: &ShopItem, customer: &Customer, catalog: &ItemCatalog) -> (row: ShopRow)
    ensures
        row@ == offer_row((item.item_id@, item.cost), *customer, *catalog),
{
    let is_full = full(customer, catalog, item.item_id.as_str());
    let mut label = catalog.name_of(item.item_id.as_str());
    if is_full {
        label.append(" (full)");
    }
    let mut price = String::new();
    append_signed(&mut price, item.cost as i64);
    assert(price@ =~= crate::text::signed_text(item.cost as int));
    price.append(" gold");
    ShopRow {
        item_id: item.item_id.clone(),
        label,
        price,
        enabled: customer.gold >= item.cost && !is_full,
    }
}

fn build_sale(slot: &InventorySlot, catalog: &ItemCatalog) -> (row: ShopRow)
    ensures
        row@ == sale_row(*slot, *catalog),
{
    let name = catalog.name_of(slot.item_id.as_str());
    let mut price = String::from_str("+");
    append_signed(&mut price, sell_price(slot.item_id.as_str()) as i64);
    price.append(" gold");
    ShopRow {
        item_id: slot.item_id.clone(),
        label: stack_label(name.as_str(), slot.quantity),
        price,
        enabled: true,
    }
}

fn is_sellable(catalog: &ItemCatalog, id: &str) -> (yes: bool)
    ensures
        yes == sellable(*catalog, id@),
{
    match catalog.get(id) {
        Some(def) => def.category != ItemCategory::KeyItem,
        None => false,
    }
}

/// The shop once it was shown: it closes when the player has left it.
pub open spec fn shown(shop: Shop) -> Shop {
    Shop { active: shop.active && shop.available, ..shop }
}

/// Closes the shop when the player has left it, and gives its panel while it
/// is open.
pub fn update_shop(
    state: &mut ShopState,
    customer: &Customer,
    catalog: &ItemCatalog,
) -> (panel: Option<ShopPanel>)
    ensures
        final(state)@ == shown(old(state)@),
        panel is Some <==> final(state)@.active,
        panel matches Some(p) ==> {
            &&& p.merchant@ == old(state)@.merchant
            &&& p.gold@ == "Your gold: "@ + crate::text::signed_text(customer.gold as int)
            &&& rows(p.offers@) == old(state)@.items.map_values(
                |ware: (Seq<char>, i32)| offer_row(ware, *customer, *catalog),
            )
            &&& rows(p.sales@) == sale_rows(customer.inventory@, *catalog)
        },
{
    // The shop closes when the player leaves it.
    if state.active && !state.available {
        state.active = false;
    }
    if !state.active {
        return None;
    }
    let ghost wanted = wares(state.items@).map_values(
        |ware: (Seq<char>, i32)| offer_row(ware, *customer, *catalog),
    );
    let mut gold = String::from_str("Your gold: ");
    append_signed(&mut gold, customer.gold as i64);
    let mut offers: Vec<ShopRow> = Vec::new();
    let mut i: usize = 0;
    while i < state.items.len()
        invariant
            i <= state.items.len(),
            offers.len() == i,
            wanted == wares(state.items@).map_values(
                |ware: (Seq<char>, i32)| offer_row(ware, *customer, *catalog),
            ),
            forall|j: int| 0 <= j < i ==> (#[trigger] offers@[j])@ == wanted[j],
        decreases state.items.len() - i,
    {
        offers.push(build_offer(&state.items[i], customer, catalog));
        i = i + 1;
    }
    assert(rows(offers@) =~= wanted);
    let inventory = customer.inventory;
    let mut sales: Vec<ShopRow> = Vec::new();
    let mut k: usize = 0;
    assert(rows(sales@) =~= sale_rows(inventory@.take(0), *catalog));
    while k < inventory.len()
        invariant
            k <= inventory.len(),
            rows(sales@) == sale_rows(inventory@.take(k as int), *catalog),
        decreases inventory.len() - k,
    {
        let ghost before = sales@;
        proof {
            assert(inventory@.take(k + 1).drop_last() =~= inventory@.take(k as int));
            assert(inventory@.take(k + 1).last() == inventory@[k as int]);
        }
        if is_sellable(catalog, inventory[k].item_id.as_str()) {
            let row = build_sale(&inventory[k], catalog);
            sales.push(row);
            assert(rows(sales@) =~= rows(before).push(row@));
        }
        k = k + 1;
    }
    assert(inventory@.take(k as int) =~= inventory@);
    Some(ShopPanel { merchant: state.merchant_name.clone(), gold, offers, sales })
}

/// What a click in the shop asks of the server.
pub enum ShopRequest {
    Buy { item_id: String, cost: i32 },
    Sell { item_id: String },
}

/// Content of a request.
pub enum Request {
    Buy(Seq<char>, i32),
    Sell(Seq<char>),
}

impl View for ShopRequest {
    type V = Request;

    open spec fn view(&self) -> Request {
        match self {
            ShopRequest::Buy { item_id, cost } => Request::Buy(item_id@, *cost),
            ShopRequest::Sell { item_id } => Request::Sell(item_id@),
        }
    }
}

/// Contents of requests.
pub open spec fn requests(list: Seq<ShopRequest>) -> Seq<Request> {
    list.map_values(|r: ShopRequest| r@)
}

/// A button of the shop panel under the cursor.
#[derive(Debug, Clone, Copy, PartialEq, Eq, Structural)]
pub enum ShopButton {
    /// The offer of that index.
    Offer(usize),
    Leave,
}

/// Purchases asked for by the buttons under the cursor, up to the one that
/// leaves the shop: every offer that the player can pay.
pub open spec fn purchases(
    buttons: Seq<ShopButton>,
    items: Seq<(Seq<char>, i32)>,
    gold: i32,
) -> Seq<Request>
    decreases buttons.len(),
{
    if buttons.len() == 0 {
        Seq::empty()
    } else {
        match buttons[0] {
            ShopButton::Leave => Seq::empty(),
            ShopButton::Offer(i) => {
                let rest = purchases(buttons.drop_first(), items, gold);
                if i < items.len() && gold >= items[i as int].1 {
                    seq![Request::Buy(items[i as int].0, items[i as int].1)] + rest
                } else {
                    rest
                }
            },
        }
    }
}

/// Some button under the cursor leaves the shop.
pub open spec fn leaves(buttons: Seq<ShopButton>) -> bool {
    exists|i: int| 0 <= i < buttons.len() && #[trigger] buttons[i] == ShopButton::Leave
}

/// The shop after a key or a click: it closes with the escape key and with the
/// button that leaves it.
pub open spec fn after_input(
    shop: Shop,
    escape: bool,
    clicked: bool,
    buttons: Seq<ShopButton>,
) -> Shop {
    let escaped = escape && shop.active;
    let left = !escaped && clicked && leaves(buttons);
    Shop { active: shop.active && !escaped && !left, ..shop }
}

/// What a click asks of the server: the purchases under the cursor, and the
/// sales unless the shop is left.
pub open spec fn asked_for(
    shop: Shop,
    escape: bool,
    clicked: bool,
    gold: i32,
    buttons: Seq<ShopButton>,
    sells: Seq<Seq<char>>,
) -> Seq<Request> {
    let bought = purchases(buttons, shop.items, gold);
    if (escape && shop.active) || !clicked {
        Seq::empty()
    } else if leaves(buttons) {
        bought
    } else {
        bought + sells.map_values(|id: Seq<char>| Request::Sell(id))
    }
}

/// Handles keys and clicks in the shop: escape and the leave button close it,
/// offers under a click are bought where there is gold enough, and items to
/// sell under a click are sold unless the shop was left.
pub fn handle_shop_input(
    shop: &mut ShopState,
    escape: bool,
    clicked: bool,
    gold: i32,
    buttons: &Vec<ShopButton>,
    sells: &Vec<String>,
) -> (asked: Vec<ShopRequest>)
    ensures
        final(shop)@ == after_input(old(shop)@, escape, clicked, buttons@),
        requests(asked@) == asked_for(
            old(shop)@,
            escape,
            clicked,
            gold,
            buttons@,
            crate::text::texts(sells@),
        ),
{
    let mut asked: Vec<ShopRequest> = Vec::new();
    assert(requests(asked@) =~= Seq::empty());
    // Shops stay available, so leaving one completes nothing.
    if escape && shop.active {
        shop.active = false;
        return asked;
    }
    if !clicked {
        return asked;
    }
    let ghost all = purchases(buttons@, shop@.items, gold);
    let mut i: usize = 0;
    assert(buttons@.skip(0) =~= buttons@);
    assert(all =~= requests(asked@) + purchases(buttons@.skip(0), shop@.items, gold));
    while i < buttons.len()
        invariant
            i <= buttons.len(),
            shop@ == old(shop)@,
            clicked,
            !(escape && old(shop)@.active),
            all == purchases(buttons@, shop@.items, gold),
            all == requests(asked@) + purchases(buttons@.skip(i as int), shop@.items, gold),
            forall|j: int| 0 <= j < i ==> #[trigger] buttons@[j] != ShopButton::Leave,
        decreases buttons.len() - i,
    {
        let ghost rest = buttons@.skip(i as int);
        let ghost before = asked@;
        assert(rest[0] == buttons@[i as int]);
        assert(rest.drop_first() =~= buttons@.skip(i + 1));
        match buttons[i] {
            ShopButton::Leave => {
                shop.active = false;
                assert(leaves(buttons@));
                assert(requests(asked@) =~= all);
                return asked;
            },
            ShopButton::Offer(index) => {
                if index < shop.items.len() {
                    assert(shop@.items[index as int] == (
                        shop.items@[index as int].item_id@,
                        shop.items@[index as int].cost,
                    ));
                    if gold >= shop.items[index].cost {
                        let request = ShopRequest::Buy {
                            item_id: shop.items[index].item_id.clone(),
                            cost: shop.items[index].cost,
                        };
                        asked.push(request);
                        assert(requests(asked@) =~= requests(before) + seq![request@]);
                        assert(all =~= requests(asked@) + purchases(
                            buttons@.skip(i + 1),
                            shop@.items,
                            gold,
                        ));
                    }
                }
            },
        }
        i = i + 1;
    }
    assert(requests(asked@) =~= all);
    let ghost bought = asked@;
    let ghost sold = crate::text::texts(sells@).map_values(|id: Seq<char>| Request::Sell(id));
    let mut k: usize = 0;
    while k < sells.len()
        invariant
            k <= sells.len(),
            sold == crate::text::texts(sells@).map_values(|id: Seq<char>| Request::Sell(id)),
            requests(asked@) == requests(bought) + sold.take(k as int),
        decreases sells.len() - k,
    {
        let ghost before = asked@;
        let request = ShopRequest::Sell { item_id: sells[k].clone() };
        asked.push(request);
        assert(requests(asked@) =~= requests(before).push(request@));
        assert(sold.take(k + 1) =~= sold.take(k as int).push(request@));
        k = k + 1;
    }
    assert(sold.take(k as int) =~= sold);
    asked
}

/// What the shop button of the HUD does.
pub enum ShopButtonChange {
    Show,
    Hide,
    Keep,
}

/// What becomes of the shop button: it shows while a shop is available and not
/// open.
pub open spec fn is_button_change(
    change: ShopButtonChange,
    shop: Shop,
    button_exists: bool,
) -> bool {
    let wanted = shop.available && !shop.active;
    match change {
        ShopButtonChange::Show => wanted && !button_exists,
        ShopButtonChange::Hide => !wanted && button_exists,
        ShopButtonChange::Keep => wanted == button_exists,
    }
}

/// A click on the shop button opens the shop; the button shows while a shop
/// is available and not open.
pub fn update_shop_button(
    shop: &mut ShopState,
    clicked: bool,
    button_exists: bool,
) -> (change: ShopButtonChange)
    ensures
        final(shop)@ == (Shop { active: old(shop)@.active || clicked, ..old(shop)@ }),
        is_button_change(change, final(shop)@, button_exists),
{
    if clicked {
        shop.active = true;
    }
    let should_show = shop.available && !shop.active;
    if should_show && !button_exists {
        ShopButtonChange::Show
    } else if !should_show && button_exists {
        ShopButtonChange::Hide
    } else {
        ShopButtonChange::Keep
    }
}

/// Selling never pays less than five gold, nor more than half the usual price.
pub proof fn sale_price_bounds(id: Seq<char>)
    ensures
        sale_price(id) >= 5,
        2 * sale_price(id) <= base_price(id),
{
}

/// Nothing is bought that the player cannot pay.
pub proof fn purchases_are_affordable(
    buttons: Seq<ShopButton>,
    items: Seq<(Seq<char>, i32)>,
    gold: i32,
    k: int,
)
    requires
        0 <= k < purchases(buttons, items, gold).len(),
    ensures
        purchases(buttons, items, gold)[k] matches Request::Buy(_, cost) && cost <= gold,
    decreases buttons.len(),
{
    if buttons.len() > 0 {
        if let ShopButton::Offer(i) = buttons[0] {
            let rest = purchases(buttons.drop_first(), items, gold);
            if i < items.len() && gold >= items[i as int].1 {
                if k > 0 {
                    purchases_are_affordable(buttons.drop_first(), items, gold, k - 1);
                }
            } else {
                purchases_are_affordable(buttons.drop_first(), items, gold, k);
            }
        }
    }
}

/// A stack that the player carries is listed for sale exactly where the catalog
/// knows its item and does not call it a key item; the row names the item, how
/// many there are and what it brings.
pub proof fn everything_but_key_items_sells(
    inventory: Seq<InventorySlot>,
    slot: InventorySlot,
    catalog: ItemCatalog,
    j: int,
)
    requires
        0 <= j < catalog.items.len(),
        catalog.items@[j].id@ == slot.item_id@,
        forall|k: int| 0 <= k < j ==> (#[trigger] catalog.items@[k]).id@ != slot.item_id@,
    ensures
        ({
            let before = sale_rows(inventory, catalog);
            let after = sale_rows(inventory.push(slot), catalog);
            if catalog.items@[j].category == ItemCategory::KeyItem {
                after == before
            } else {
                &&& after.len() == before.len() + 1
                &&& after.drop_last() == before
                &&& after.last().item_id == slot.item_id@
                &&& after.last().label == crate::items::stack_text(
                    catalog.items@[j].display_name@,
                    slot.quantity,
                )
                &&& after.last().price == "+"@ + crate::text::signed_text(
                    sale_price(slot.item_id@) as int,
                ) + " gold"@
                &&& after.last().enabled
            }
        }),
        sale_rows(Seq::empty(), catalog).len() == 0,
{
    crate::items::first_item_counts(catalog, slot.item_id@, j);
    assert(inventory.push(slot).drop_last() =~= inventory);
    let before = sale_rows(inventory, catalog);
    if catalog.items@[j].category != ItemCategory::KeyItem {
        assert(before.push(sale_row(slot, catalog)).drop_last() =~= before);
    }
}

/// What the catalog does not know cannot be sold.
pub proof fn unknown_items_do_not_sell(
    inventory: Seq<InventorySlot>,
    slot: InventorySlot,
    catalog: ItemCatalog,
)
    requires
        forall|k: int|
            0 <= k < catalog.items.len() ==> (#[trigger] catalog.items@[k]).id@ != slot.item_id@,
    ensures
        sale_rows(inventory.push(slot), catalog) == sale_rows(inventory, catalog),
{
    crate::items::unlisted_items_are_unknown(catalog, slot.item_id@);
    assert(inventory.push(slot).drop_last() =~= inventory);
}

/// Every carried stack whose item the catalog knows has a row among the sales
/// exactly where its category is not that of key items.
pub proof fn stacks_with_a_row_among_the_sales(
    inventory: Seq<InventorySlot>,
    catalog: ItemCatalog,
    i: int,
    j: int,
)
    requires
        0 <= i < inventory.len(),
        0 <= j < catalog.items.len(),
        catalog.items@[j].id@ == inventory[i].item_id@,
        forall|k: int| 0 <= k < j ==> (#[trigger] catalog.items@[k]).id@ != inventory[i].item_id@,
    ensures
        catalog.items@[j].category != ItemCategory::KeyItem <==> exists|k: int|
            0 <= k < sale_rows(inventory, catalog).len() && (#[trigger] sale_rows(
                inventory,
                catalog,
            )[k]).item_id == inventory[i].item_id@,
{
    crate::items::first_item_counts(catalog, inventory[i].item_id@, j);
    lemma_rows_are_sellable(inventory, catalog);
    if catalog.items@[j].category != ItemCategory::KeyItem {
        lemma_sellable_has_row(inventory, catalog, i);
    }
}

proof fn lemma_rows_are_sellable(inventory: Seq<InventorySlot>, catalog: ItemCatalog)
    ensures
        forall|k: int|
            0 <= k < sale_rows(inventory, catalog).len() ==> sellable(
                catalog,
                (#[trigger] sale_rows(inventory, catalog)[k]).item_id,
            ),
    decreases inventory.len(),
{
    if inventory.len() > 0 {
        let before = sale_rows(inventory.drop_last(), catalog);
        lemma_rows_are_sellable(inventory.drop_last(), catalog);
        assert forall|k: int| 0 <= k < sale_rows(inventory, catalog).len() implies sellable(
            catalog,
            (#[trigger] sale_rows(inventory, catalog)[k]).item_id,
        ) by {
            if k < before.len() {
                assert(sale_rows(inventory, catalog)[k] == before[k]);
            }
        }
    }
}

proof fn lemma_sellable_has_row(inventory: Seq<InventorySlot>, catalog: ItemCatalog, i: int)
    requires
        0 <= i < inventory.len(),
        sellable(catalog, inventory[i].item_id@),
    ensures
        exists|k: int|
            0 <= k < sale_rows(inventory, catalog).len() && (#[trigger] sale_rows(
                inventory,
                catalog,
            )[k]).item_id == inventory[i].item_id@,
    decreases inventory.len(),
{
    let shorter = inventory.drop_last();
    let before = sale_rows(shorter, catalog);
    let all = sale_rows(inventory, catalog);
    if i == inventory.len() - 1 {
        assert(all[all.len() - 1].item_id == inventory[i].item_id@);
    } else {
        lemma_sellable_has_row(shorter, catalog, i);
        let k = choose|k: int|
            0 <= k < before.len() && (#[trigger] before[k]).item_id == shorter[i].item_id@;
        assert(all[k] == before[k]);
    }
}

/// What each thing brings: half its usual price, and ten for whatever has none.
pub proof fn what_things_bring(id: Seq<char>)
    ensures
        id == "wooden_club"@ ==> sale_price(id) == 20,
        id == "iron_sword"@ ==> sale_price(id) == 60,
        id == "fire_blade"@ ==> sale_price(id) == 100,
        id == "frost_axe"@ ==> sale_price(id) == 90,
        id == "leather_vest"@ ==> sale_price(id) == 25,
        id == "chainmail"@ ==> sale_price(id) == 75,
        id == "dragonscale_armor"@ ==> sale_price(id) == 150,
        id == "warm_cloak"@ ==> sale_price(id) == 30,
        id == "bog_charm"@ ==> sale_price(id) == 30,
        id == "ring_of_vigor"@ ==> sale_price(id) == 50,
        id == "berserker_pendant"@ ==> sale_price(id) == 40,
        id == "health_potion"@ ==> sale_price(id) == 15,
        id == "greater_health_potion"@ ==> sale_price(id) == 30,
        id == "speed_potion"@ ==> sale_price(id) == 40,
        id == "mystery_potion"@ ==> sale_price(id) == 20,
        id == "battle_elixir"@ ==> sale_price(id) == 60,
        id == "torch"@ ==> sale_price(id) == 10,
        id == "compass"@ ==> sale_price(id) == 30,
        id == "explorers_map"@ ==> sale_price(id) == 90,
        id.len() < 5 || id.len() > 21 ==> sale_price(id) == 10,
        sale_price(id) != 10 ==> sale_price(id) >= 15,
{
    reveal_strlit("wooden_club");
    reveal_strlit("iron_sword");
    reveal_strlit("fire_blade");
    reveal_strlit("frost_axe");
    reveal_strlit("leather_vest");
    reveal_strlit("chainmail");
    reveal_strlit("dragonscale_armor");
    reveal_strlit("warm_cloak");
    reveal_strlit("bog_charm");
    reveal_strlit("ring_of_vigor");
    reveal_strlit("berserker_pendant");
    reveal_strlit("health_potion");
    reveal_strlit("greater_health_potion");
    reveal_strlit("speed_potion");
    reveal_strlit("mystery_potion");
    reveal_strlit("battle_elixir");
    reveal_strlit("torch");
    reveal_strlit("compass");
    reveal_strlit("explorers_map");
    assert("wooden_club"@.len() == 11 && "iron_sword"@.len() == 10);
    assert("fire_blade"@.len() == 10 && "frost_axe"@.len() == 9);
    assert("leather_vest"@.len() == 12 && "chainmail"@.len() == 9);
    assert("dragonscale_armor"@.len() == 17 && "warm_cloak"@.len() == 10);
    assert("bog_charm"@.len() == 9 && "ring_of_vigor"@.len() == 13);
    assert("berserker_pendant"@.len() == 17 && "health_potion"@.len() == 13);
    assert("greater_health_potion"@.len() == 21 && "speed_potion"@.len() == 12);
    assert("mystery_potion"@.len() == 14 && "battle_elixir"@.len() == 13);
    assert("torch"@.len() == 5 && "compass"@.len() == 7);
    assert("explorers_map"@.len() == 13);
    assert("iron_sword"@[0] == 'i' && "fire_blade"@[0] == 'f' && "warm_cloak"@[0] == 'w');
    assert("frost_axe"@[0] == 'f' && "chainmail"@[0] == 'c' && "bog_charm"@[0] == 'b');
    assert("leather_vest"@[0] == 'l' && "speed_potion"@[0] == 's');
    assert("dragonscale_armor"@[0] == 'd' && "berserker_pendant"@[0] == 'b');
    assert("ring_of_vigor"@[0] == 'r' && "health_potion"@[0] == 'h' && "battle_elixir"@[0] == 'b'
        && "explorers_map"@[0] == 'e');
}

/// An offer names its ware and price, and can be bought exactly by a player who
/// can pay it and has room for it: nothing that is worn, nor more of a stack
/// than the item allows.
pub proof fn offers_are_for_those_who_can_take_them(
    ware: (Seq<char>, i32),
    customer: Customer,
    catalog: ItemCatalog,
)
    ensures
        ({
            let row = offer_row(ware, customer, catalog);
            let room = match crate::items::find_stack(customer.inventory@, ware.0) {
                Some(stack) => match crate::items::find_item(catalog.items@, ware.0) {
                    Some(def) => def.stackable && stack.quantity < def.max_stack
                        || !def.stackable && stack.quantity < 1,
                    None => stack.quantity < 1,
                },
                None => true,
            } && !crate::items::wears(*customer.equipment, ware.0);
            let name = crate::items::item_name(catalog, ware.0);
            &&& row.item_id == ware.0
            &&& row.enabled <==> customer.gold >= ware.1 && room
            &&& room ==> row.label == name
            &&& !room ==> row.label == name + " (full)"@
            &&& row.price == crate::text::signed_text(ware.1 as int) + " gold"@
        }),
{
}

/// Buttons are taken in turn: an offer that is there and can be paid is bought,
/// any other is passed over, and behind the button that leaves nothing is
/// bought.
pub proof fn buttons_buy_in_turn(
    buttons: Seq<ShopButton>,
    items: Seq<(Seq<char>, i32)>,
    gold: i32,
    i: usize,
)
    ensures
        purchases(Seq::empty(), items, gold).len() == 0,
        purchases(seq![ShopButton::Leave] + buttons, items, gold).len() == 0,
        ({
            let rest = purchases(buttons, items, gold);
            let all = purchases(seq![ShopButton::Offer(i)] + buttons, items, gold);
            if i < items.len() && items[i as int].1 <= gold {
                all == seq![Request::Buy(items[i as int].0, items[i as int].1)] + rest
            } else {
                all == rest
            }
        }),
        leaves(buttons) <==> buttons.contains(ShopButton::Leave),
{
    assert((seq![ShopButton::Leave] + buttons)[0] == ShopButton::Leave);
    assert((seq![ShopButton::Offer(i)] + buttons).drop_first() =~= buttons);
    if buttons.contains(ShopButton::Leave) {
        let k = choose|k: int| 0 <= k < buttons.len() && buttons[k] == ShopButton::Leave;
        assert(buttons[k] == ShopButton::Leave);
    }
}

/// The escape key closes an open shop and asks for nothing; a click on the
/// button that leaves closes it and sells nothing; any other click leaves it
/// open, buys what is under the cursor and sells every stack clicked; without a
/// click nothing is asked for.
pub proof fn what_clicks_in_a_shop_do(
    shop: Shop,
    escape: bool,
    clicked: bool,
    gold: i32,
    buttons: Seq<ShopButton>,
    sells: Seq<Seq<char>>,
)
    ensures
        ({
            let after = after_input(shop, escape, clicked, buttons);
            let asked = asked_for(shop, escape, clicked, gold, buttons, sells);
            let bought = purchases(buttons, shop.items, gold);
            &&& after == (Shop { active: after.active, ..shop })
            &&& !shop.active ==> !after.active
            &&& shop.active && escape ==> !after.active && asked.len() == 0
            &&& !clicked ==> asked.len() == 0
            &&& shop.active && !escape ==> (!after.active <==> clicked && leaves(buttons))
            &&& shop.active && !escape && clicked && !leaves(buttons) ==> {
                &&& asked.len() == bought.len() + sells.len()
                &&& asked.take(bought.len() as int) == bought
                &&& forall|k: int|
                    0 <= k < sells.len() ==> asked[#[trigger] (bought.len() + k)] == Request::Sell(
                        sells[k],
                    )
            }
            &&& shop.active && !escape && clicked && leaves(buttons) ==> asked == bought
        }),
{
    let bought = purchases(buttons, shop.items, gold);
    let asked = asked_for(shop, escape, clicked, gold, buttons, sells);
    if shop.active && !escape && clicked && !leaves(buttons) {
        assert(asked.take(bought.len() as int) =~= bought);
    }
}

/// A shop that was shown is open exactly where it was and the player is still
/// there; the button to open it shows exactly where a shop is there to open.
pub proof fn shops_show_where_they_are(shop: Shop, change: ShopButtonChange, button: bool)
    requires
        is_button_change(change, shop, button),
    ensures
        shown(shop).active <==> shop.active && shop.available,
        shown(shop).items == shop.items && shown(shop).merchant == shop.merchant,
        (button && !(change is Hide)) || change is Show <==> shop.available && !shop.active,
        change is Show ==> !button,
        change is Hide ==> button,
{
}

/// A request keeps its kind, its item and its cost; rows keep all that they
/// show.
pub proof fn contents_of_requests_and_rows(list: Seq<ShopRequest>, shown: Seq<ShopRow>, i: int)
    ensures
        requests(list).len() == list.len(),
        0 <= i < list.len() ==> match list[i] {
            ShopRequest::Buy { item_id, cost } => requests(list)[i] == Request::Buy(item_id@, cost),
            ShopRequest::Sell { item_id } => requests(list)[i] == Request::Sell(item_id@),
        },
        rows(shown).len() == shown.len(),
        0 <= i < shown.len() ==> rows(shown)[i].item_id == shown[i].item_id@ && rows(shown)[i].label
            == shown[i].label@ && rows(shown)[i].price == shown[i].price@ && rows(shown)[i].enabled
            == shown[i].enabled,
{
}

} // verus!
