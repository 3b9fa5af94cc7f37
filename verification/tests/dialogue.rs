use gameclient::dialogue::event_poll::{
    extract_poi_id, poll_active_events, take_server_notices, ActiveEvent,
};
use gameclient::dialogue::message_log::{
    display_text, update_notifications, MessageLog, NotificationQueue, MAX_LOG_LINES,
};
use gameclient::dialogue::shop::{
    handle_shop_input, sell_price, update_shop, update_shop_button, Customer, ShopButton,
    ShopButtonChange, ShopItem, ShopRequest, ShopState,
};
use gameclient::dialogue::{Advance, BoxStep, DialogueState};
use gameclient::items::{
    EquipmentLoadout, InventorySlot, ItemCatalog, ItemCategory, ItemDef, ItemEffect,
};
use gameclient::json::parse_json;

fn talk(lines: &[&str]) -> DialogueState {
    DialogueState {
        active: true,
        event_id: "meet".into(),
        speaker: "Sage".into(),
        lines: lines.iter().map(|s| s.to_string()).collect(),
        current_line: 0,
        typewriter_index: 0,
    }
}

fn bare() -> EquipmentLoadout {
    EquipmentLoadout { weapon: None, armor: None, accessory: None, feet: None, toe_rings: None }
}

fn item(id: &str, name: &str, stackable: bool, max_stack: u32) -> ItemDef {
    ItemDef {
        id: id.into(),
        display_name: name.into(),
        description: "".into(),
        category: ItemCategory::Consumable,
        stackable,
        max_stack,
        effects: vec![ItemEffect::Heal { amount: 5 }],
    }
}

fn event(id: &str, kind: &str, trigger: &str) -> ActiveEvent {
    ActiveEvent {
        id: id.into(),
        name: "Name".into(),
        description: "Text".into(),
        kind: parse_json(kind).unwrap(),
        trigger: parse_json(trigger).unwrap(),
    }
}

#[test]
fn typewriter_shows_ever_more() {
    let mut dialogue = talk(&["Höhle", "Bye"]);
    assert_eq!(dialogue.visible_text(), "");
    for _ in 0..2 {
        dialogue.tick_typewriter();
    }
    assert_eq!(dialogue.visible_text(), "Hö");
    for _ in 0..9 {
        dialogue.tick_typewriter();
    }
    assert_eq!(dialogue.visible_text(), "Höhle");
}

#[test]
fn pressing_on_runs_through_the_lines() {
    let mut dialogue = talk(&["One", "Two"]);
    assert!(matches!(dialogue.handle_dialogue_input(), Advance::LineShown));
    assert_eq!(dialogue.visible_text(), "One");
    assert!(matches!(dialogue.handle_dialogue_input(), Advance::NextLine));
    assert_eq!(dialogue.visible_text(), "");
    assert!(matches!(dialogue.handle_dialogue_input(), Advance::LineShown));
    match dialogue.handle_dialogue_input() {
        Advance::Finished { event_id } => assert_eq!(event_id, "meet"),
        _ => panic!("the dialogue is over"),
    }
    assert!(!dialogue.dialogue_active());
    assert!(matches!(dialogue.handle_dialogue_input(), Advance::Ignored));
}

#[test]
fn dialogue_box_opens_and_closes() {
    let mut dialogue = talk(&["Hi"]);
    match dialogue.update_dialogue(true, false) {
        BoxStep::Open { speaker, text } => {
            assert_eq!(speaker, "Sage");
            assert_eq!(text, "H");
        }
        _ => panic!("a box opens"),
    }
    match dialogue.update_dialogue(false, true) {
        BoxStep::Show { line } => assert_eq!(line, Some("H".to_string())),
        _ => panic!("the box stays"),
    }
    let mut none = DialogueState::default();
    assert!(matches!(none.update_dialogue(true, true), BoxStep::Close));
}

#[test]
fn log_types_lines_and_keeps_the_last() {
    let mut log = MessageLog::default();
    let mut queue = NotificationQueue::default();
    for i in 0..10 {
        queue.notify(format!("m{}", i), 4);
    }
    update_notifications(&mut log, &mut queue, 1);
    assert_eq!(log.current_text, Some("m0".to_string()));
    for _ in 0..200 {
        update_notifications(&mut log, &mut queue, 1);
    }
    assert_eq!(log.lines.len(), MAX_LOG_LINES);
    assert_eq!(log.lines[0], "m2");
    assert_eq!(log.lines[7], "m9");
    assert!(queue.pending.is_empty());
    assert!(display_text(&log, &queue).contains("m9"));
}

#[test]
fn shop_panel_lists_offers_and_sales() {
    let catalog = ItemCatalog { items: vec![item("potion", "Potion", true, 2)] };
    let inventory = vec![InventorySlot { item_id: "potion".into(), quantity: 2 }];
    let worn = bare();
    let customer = Customer { gold: 30, inventory: &inventory, equipment: &worn };
    let mut shop = ShopState {
        active: true,
        event_id: "e".into(),
        merchant_name: "Mo".into(),
        items: vec![
            ShopItem { item_id: "potion".into(), cost: 10 },
            ShopItem { item_id: "sword".into(), cost: 50 },
            ShopItem { item_id: "apple".into(), cost: 30 },
        ],
        available: true,
    };
    let panel = update_shop(&mut shop, &customer, &catalog).unwrap();
    assert_eq!(panel.merchant, "Mo");
    assert_eq!(panel.offers.len(), 3);
    assert_eq!(panel.offers[0].label, "Potion (full)");
    assert!(!panel.offers[0].enabled);
    assert_eq!(panel.offers[1].label, "sword");
    assert_eq!(panel.offers[1].price, "50 gold");
    assert!(!panel.offers[1].enabled);
    assert!(panel.offers[2].enabled);
    assert_eq!(panel.sales.len(), 1);
    shop.available = false;
    assert!(update_shop(&mut shop, &customer, &catalog).is_none());
    assert!(!shop.active);
}

#[test]
fn sale_prices() {
    assert_eq!(sell_price("wooden_club"), 20);
    assert_eq!(sell_price("iron_sword"), 60);
    assert!(sell_price("no such thing") >= 5);
}

#[test]
fn clicks_in_the_shop() {
    let mut shop = ShopState {
        active: true,
        event_id: "e".into(),
        merchant_name: "Mo".into(),
        items: vec![
            ShopItem { item_id: "apple".into(), cost: 5 },
            ShopItem { item_id: "crown".into(), cost: 500 },
        ],
        available: true,
    };
    let buttons = vec![ShopButton::Offer(0), ShopButton::Offer(1)];
    let asked = handle_shop_input(&mut shop, false, true, 20, &buttons, &vec!["rope".to_string()]);
    assert_eq!(asked.len(), 2);
    match &asked[0] {
        ShopRequest::Buy { item_id, cost } => {
            assert_eq!(item_id, "apple");
            assert_eq!(*cost, 5);
        }
        _ => panic!("an apple is bought"),
    }
    assert!(matches!(&asked[1], ShopRequest::Sell { item_id } if item_id == "rope"));
    let asked = handle_shop_input(&mut shop, false, true, 20, &vec![ShopButton::Leave], &vec![]);
    assert!(asked.is_empty());
    assert!(!shop.active);
    shop.active = true;
    handle_shop_input(&mut shop, true, false, 20, &vec![], &vec![]);
    assert!(!shop.active);
}

#[test]
fn shop_button_comes_and_goes() {
    let mut shop = ShopState::default();
    shop.available = true;
    assert!(matches!(update_shop_button(&mut shop, false, false), ShopButtonChange::Show));
    assert!(matches!(update_shop_button(&mut shop, false, true), ShopButtonChange::Keep));
    assert!(matches!(update_shop_button(&mut shop, true, true), ShopButtonChange::Hide));
    assert!(shop.active);
}

#[test]
fn place_of_an_event() {
    let direct = parse_json(r#"{"poi_id": 7}"#).unwrap();
    assert_eq!(extract_poi_id(&direct), Some(7));
    let nested = parse_json(r#"{"conditions": [{"level": 2}, {"poi_id": 9}]}"#).unwrap();
    assert_eq!(extract_poi_id(&nested), Some(9));
    let none = parse_json(r#"{"conditions": []}"#).unwrap();
    assert_eq!(extract_poi_id(&none), None);
}

#[test]
fn active_events_act_only_once() {
    let events = vec![event(
        "talk1",
        r#"{"type": "npc_dialogue", "speaker": "Elder", "lines": ["Hello", "Go"]}"#,
        r#"{}"#,
    )];
    let mut known = Vec::new();
    let mut dialogue = DialogueState::default();
    let mut queue = NotificationQueue::default();
    let mut shop = ShopState::default();
    poll_active_events(&events, &mut known, &mut dialogue, &mut queue, &mut shop, None);
    assert_eq!(known, vec!["talk1".to_string()]);
    let opened = dialogue.active;
    dialogue.active = false;
    let waiting = queue.pending.len();
    poll_active_events(&events, &mut known, &mut dialogue, &mut queue, &mut shop, None);
    assert!(opened && !dialogue.active);
    assert_eq!(queue.pending.len(), waiting);
    // Once it is over it is forgotten.
    poll_active_events(&vec![], &mut known, &mut dialogue, &mut queue, &mut shop, None);
    assert!(known.is_empty());
}

#[test]
fn notices_of_the_server_are_queued() {
    let mut queue = NotificationQueue::default();
    take_server_notices(&mut queue, &vec!["a".to_string(), "b".to_string()]);
    assert_eq!(queue.pending.len(), 2);
    assert_eq!(queue.pending[1].text, "b");
    assert_eq!(queue.pending[1].duration, 4);
}

#[test]
fn open_shop_closes_behind_the_player_who_leaves() {
    let offer = |id: &str, ware: &str| {
        event(
            id,
            &format!(
                r#"{{"type": "shop", "merchant_name": "Mo", "items": [{{"name": "{}", "cost": 5}}]}}"#,
                ware
            ),
            if id == "near" { r#"{"poi_id": 7}"# } else { r#"{"poi_id": 8}"# },
        )
    };
    let events = vec![offer("near", "torch"), offer("far", "compass")];
    let mut known = Vec::new();
    let mut dialogue = DialogueState::default();
    let mut queue = NotificationQueue::default();
    let mut shop = ShopState::default();
    let (inventory, catalog, worn) = (vec![], ItemCatalog { items: vec![] }, bare());
    let customer = Customer { gold: 1, inventory: &inventory, equipment: &worn };
    poll_active_events(&events, &mut known, &mut dialogue, &mut queue, &mut shop, Some(7));
    assert!(shop.available && !shop.active);
    shop.active = true;
    // Staying keeps it open, whatever else is on offer elsewhere.
    poll_active_events(&events, &mut known, &mut dialogue, &mut queue, &mut shop, Some(7));
    assert!(update_shop(&mut shop, &customer, &catalog).is_some());
    assert_eq!(shop.items[0].item_id, "torch");
    // At another shop it is no longer this one.
    poll_active_events(&events, &mut known, &mut dialogue, &mut queue, &mut shop, Some(8));
    assert_eq!(shop.items[0].item_id, "torch");
    assert!(update_shop(&mut shop, &customer, &catalog).is_none());
    assert!(!shop.active);
    poll_active_events(&events, &mut known, &mut dialogue, &mut queue, &mut shop, Some(8));
    assert!(shop.available && !shop.active);
    assert_eq!(shop.items[0].item_id, "compass");
    shop.active = true;
    poll_active_events(&vec![], &mut known, &mut dialogue, &mut queue, &mut shop, None);
    assert!(update_shop(&mut shop, &customer, &catalog).is_none());
}
