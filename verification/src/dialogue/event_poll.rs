//! What the client does with the events that the server reports as active.

use vstd::prelude::*;
use vstd::string::StringExecFns;

use super::message_log::{NotificationData, NotificationQueue};
use super::shop::{ShopItem, ShopState};
use super::DialogueState;
use crate::json::{collect_texts, Json};
use crate::text::{contains_text, same_text};

verus! {

/// An active event, as the server describes it.
pub struct ActiveEvent {
    pub id: String,
    pub name: String,
    pub description: String,
    pub kind: Json,
    pub trigger: Json,
}

/// Content of an event.
pub struct Event {
    pub id: Seq<char>,
    pub name: Seq<char>,
    pub description: Seq<char>,
    pub kind: crate::json::JsonTree,
    pub trigger: crate::json::JsonTree,
}

impl View for ActiveEvent {
    type V = Event;

    open spec fn view(&self) -> Event {
        Event {
            id: self.id@,
            name: self.name@,
            description: self.description@,
            kind: self.kind.tree(),
            trigger: self.trigger.tree(),
        }
    }
}

/// Contents of events.
pub open spec fn events_of(list: Seq<ActiveEvent>) -> Seq<Event> {
    list.map_values(|e: ActiveEvent| e@)
}

/// Everything that active events act on.
#[verifier::ext_equal]
pub struct Scene {
    /// Ids of events that were acted on and are still active.
    pub known: Seq<Seq<char>>,
    pub dialogue: super::Dialogue,
    /// Texts and durations of waiting notifications.
    pub notices: Seq<(Seq<char>, u32)>,
    pub shop: super::shop::Shop,
}

/// Texts and durations of notifications.
pub open spec fn notices_of(pending: Seq<NotificationData>) -> Seq<(Seq<char>, u32)> {
    pending.map_values(|n: NotificationData| (n.text@, n.duration))
}

/// The scene as it stands.
pub open spec fn scene_of(
    known: Seq<String>,
    dialogue: DialogueState,
    notifications: NotificationQueue,
    shop: ShopState,
) -> Scene {
    Scene {
        known: crate::text::texts(known),
        dialogue: dialogue@,
        notices: notices_of(notifications.pending@),
        shop: shop@,
    }
}

/// The first place that one of the conditions names.
pub open spec fn first_poi(conditions: Seq<crate::json::JsonTree>) -> Option<usize>
    decreases conditions.len(),
{
    if conditions.len() == 0 {
        None
    } else {
        match crate::json::unsigned_field(conditions[0], "poi_id"@) {
            Some(id) => Some(id as usize),
            None => first_poi(conditions.drop_first()),
        }
    }
}

/// The place that a trigger is bound to: its own, or the first that one of its
/// conditions names.
pub open spec fn poi_of(trigger: crate::json::JsonTree) -> Option<usize> {
    match crate::json::unsigned_field(trigger, "poi_id"@) {
        Some(id) => Some(id as usize),
        None => match crate::json::list_field(trigger, "conditions"@) {
            Some(conditions) => first_poi(conditions),
            None => None,
        },
    }
}

/// The wares among the values of a list: those with a name and a whole cost.
pub open spec fn wares_in(items: Seq<crate::json::JsonTree>) -> Seq<(Seq<char>, i32)>
    decreases items.len(),
{
    if items.len() == 0 {
        Seq::empty()
    } else {
        let before = wares_in(items.drop_last());
        match (
            crate::json::text_field(items.last(), "name"@),
            crate::json::signed_field(items.last(), "cost"@),
        ) {
            (Some(name), Some(cost)) => before.push((name, cost as i32)),
            _ => before,
        }
    }
}

/// Kind of an event.
pub open spec fn event_type(event: Event) -> Seq<char> {
    match crate::json::text_field(event.kind, "type"@) {
        Some(t) => t,
        None => "unknown"@,
    }
}

/// The player stands at the place that the event is bound to.
pub open spec fn is_at(event: Event, here: Option<usize>) -> bool {
    poi_of(event.trigger) is Some && poi_of(event.trigger) == here
}

/// The shop after an event that offers one to a player who stands at its place.
/// One that is open keeps its wares, and stays available through its own event
/// only.
pub open spec fn shop_after(
    shop: super::shop::Shop,
    event: Event,
    here: Option<usize>,
) -> super::shop::Shop {
    if !is_at(event, here) {
        shop
    } else if shop.active {
        super::shop::Shop { available: shop.available || event.id == shop.event_id, ..shop }
    } else {
        super::shop::Shop {
            active: shop.active,
            available: true,
            event_id: event.id,
            merchant: match crate::json::text_field(event.kind, "merchant_name"@) {
                Some(name) => name,
                None => "Merchant"@,
            },
            items: match crate::json::list_field(event.kind, "items"@) {
                Some(items) => wares_in(items),
                None => Seq::empty(),
            },
        }
    }
}

/// Who speaks in a dialogue event.
pub open spec fn speaker_of(event: Event) -> Seq<char> {
    match crate::json::text_field(event.kind, "speaker"@) {
        Some(name) => name,
        None => match crate::json::text_field(event.kind, "enemy_name"@) {
            Some(name) => name,
            None => event.name,
        },
    }
}

/// What is said in a dialogue event.
pub open spec fn lines_of(event: Event) -> Seq<Seq<char>> {
    match crate::json::list_field(event.kind, "lines"@) {
        Some(items) => crate::json::texts_in(items),
        None => match crate::json::text_field(event.kind, "description"@) {
            Some(text) => seq![text],
            None => seq![event.description],
        },
    }
}

/// The dialogue that an event opens, unless one is open already.
pub open spec fn dialogue_after(dialogue: super::Dialogue, event: Event) -> super::Dialogue {
    if dialogue.active {
        dialogue
    } else {
        super::Dialogue {
            active: true,
            event_id: event.id,
            speaker: speaker_of(event),
            lines: lines_of(event),
            current_line: 0,
            typed: 0,
        }
    }
}

/// Notifications for a story beat: its lines, four seconds each.
pub open spec fn story_notices(event: Event) -> Seq<(Seq<char>, u32)> {
    match crate::json::list_field(event.kind, "lines"@) {
        Some(items) => crate::json::texts_in(items).map_values(|line: Seq<char>| (line, 4u32)),
        None => Seq::empty(),
    }
}

/// Notification for a treasure.
pub open spec fn treasure_notice(event: Event) -> (Seq<char>, u32) {
    (
        match crate::json::text_field(event.kind, "description"@) {
            Some(text) => text,
            None => "Found treasure!"@,
        },
        3u32,
    )
}

/// Notification for any other event.
pub open spec fn plain_notice(event: Event) -> (Seq<char>, u32) {
    (event.name + ": "@ + event.description, 3u32)
}

/// The scene after an event that was not known: bosses and encounters are left
/// to combat, dialogues open, everything else is notified.
pub open spec fn after_new_event(scene: Scene, event: Event) -> Scene {
    let kind = event_type(event);
    let known = scene.known.push(event.id);
    if kind == "boss"@ || kind == "random_encounter"@ {
        Scene { known, ..scene }
    } else if kind == "npc_dialogue"@ {
        Scene { known, dialogue: dialogue_after(scene.dialogue, event), ..scene }
    } else if kind == "story_beat"@ {
        Scene { known, notices: scene.notices + story_notices(event), ..scene }
    } else if kind == "treasure"@ {
        Scene { known, notices: scene.notices.push(treasure_notice(event)), ..scene }
    } else {
        Scene { known, notices: scene.notices.push(plain_notice(event)), ..scene }
    }
}

/// The scene after one active event. Shops are looked at every time, anything
/// else only while it is not known.
pub open spec fn after_event(scene: Scene, event: Event, here: Option<usize>) -> Scene {
    if event_type(event) == "shop"@ {
        Scene { shop: shop_after(scene.shop, event, here), ..scene }
    } else if scene.known.contains(event.id) {
        scene
    } else {
        after_new_event(scene, event)
    }
}

/// The scene after the first `count` active events.
pub open spec fn after_events(
    scene: Scene,
    events: Seq<Event>,
    count: int,
    here: Option<usize>,
) -> Scene
    decreases count,
{
    if count <= 0 {
        scene
    } else {
        after_event(after_events(scene, events, count - 1, here), events[count - 1], here)
    }
}

/// Some event has the id.
pub open spec fn reported(events: Seq<Event>, id: Seq<char>) -> bool {
    exists|i: int| 0 <= i < events.len() && (#[trigger] events[i]).id == id
}

/// The ids that some event still has.
pub open spec fn still_active(known: Seq<Seq<char>>, events: Seq<Event>) -> Seq<Seq<char>>
    decreases known.len(),
{
    if known.len() == 0 {
        Seq::empty()
    } else {
        let before = still_active(known.drop_last(), events);
        if reported(events, known.last()) {
            before.push(known.last())
        } else {
            before
        }
    }
}

/// The scene as a report finds it: whether there is a shop is decided anew.
pub open spec fn before_report(scene: Scene) -> Scene {
    Scene { shop: super::shop::Shop { available: false, ..scene.shop }, ..scene }
}

/// The scene after a report of all active events: whether there is a shop is
/// decided anew, the events act in turn, and ids of events that are over are
/// forgotten.
pub open spec fn after_report(scene: Scene, events: Seq<Event>, here: Option<usize>) -> Scene {
    let end = after_events(before_report(scene), events, events.len() as int, here);
    Scene { known: still_active(end.known, events), ..end }
}

/// The report offers the shop of that id to the player.
pub open spec fn offers(events: Seq<Event>, id: Seq<char>, here: Option<usize>) -> bool {
    exists|i: int|
        0 <= i < events.len() && event_type(#[trigger] events[i]) == "shop"@ && is_at(
            events[i],
            here,
        ) && events[i].id == id
}

/// The place that a trigger is bound to. Handles both
/// `{"condition": "at_poi", "poi_id": N}` and
/// `{"condition": "all", "conditions": [{"condition": "at_poi", "poi_id": N}]}`.
pub fn extract_poi_id(trigger: &Json) -> (id: Option<usize>)
    ensures
        id == poi_of(trigger.tree()),
{
    if let Some(pid) = trigger.get_u64("poi_id") {
        return Some(pid as usize);
    }
    if let Some(conditions) = trigger.get_list("conditions") {
        let ghost all = crate::json::trees(conditions@);
        let mut i: usize = 0;
        assert(all.skip(0) =~= all);
        while i < conditions.len()
            invariant
                i <= conditions.len(),
                all == crate::json::trees(conditions@),
                poi_of(trigger.tree()) == first_poi(all.skip(i as int)),
            decreases conditions.len() - i,
        {
            assert(all.skip(i as int)[0] == conditions@[i as int].tree());
            assert(all.skip(i as int).drop_first() =~= all.skip(i + 1));
            if let Some(pid) = conditions[i].get_u64("poi_id") {
                return Some(pid as usize);
            }
            i = i + 1;
        }
    }
    None
}

fn read_wares(items: &Vec<Json>) -> (found: Vec<ShopItem>)
    ensures
        super::shop::wares(found@) == wares_in(crate::json::trees(items@)),
{
    let ghost all = crate::json::trees(items@);
    let mut found: Vec<ShopItem> = Vec::new();
    let mut i: usize = 0;
    assert(all.take(0) =~= Seq::empty());
    assert(super::shop::wares(found@) =~= wares_in(all.take(0)));
    while i < items.len()
        invariant
            i <= items.len(),
            all == crate::json::trees(items@),
            super::shop::wares(found@) == wares_in(all.take(i as int)),
        decreases items.len() - i,
    {
        let ghost before = found@;
        assert(all.take(i + 1).drop_last() =~= all.take(i as int));
        assert(all.take(i + 1).last() == items@[i as int].tree());
        if let Some(name) = items[i].get_text("name") {
            if let Some(cost) = items[i].get_i64("cost") {
                let cost: i32 = cost as i32;
                found.push(ShopItem { item_id: name.clone(), cost });
                assert(super::shop::wares(found@) =~= super::shop::wares(before).push(
                    (name@, cost),
                ));
            }
        }
        i = i + 1;
    }
    assert(all.take(all.len() as int) =~= all);
    found
}

/// Offers the shop of an event to a player who stands at its place.
fn offer_shop(event: &ActiveEvent, shop: &mut ShopState, here: Option<usize>)
    ensures
        final(shop)@ == shop_after(old(shop)@, event@, here),
{
    let at_place = match (extract_poi_id(&event.trigger), here) {
        (Some(pid), Some(place)) => pid == place,
        _ => false,
    };
    if !at_place {
        return ;
    }
    if shop.active {
        // An open shop keeps its wares while the player stays.
        if same_text(event.id.as_str(), shop.event_id.as_str()) {
            shop.available = true;
        }
    } else {
        shop.available = true;
        shop.event_id = event.id.clone();
        shop.merchant_name = match event.kind.get_text("merchant_name") {
            Some(name) => name.clone(),
            None => String::from_str("Merchant"),
        };
        shop.items = match event.kind.get_list("items") {
            Some(items) => read_wares(items),
            None => Vec::new(),
        };
        assert(crate::json::list_field(event@.kind, "items"@) is None ==> shop@.items
            =~= Seq::empty());
    }
}

fn read_lines(event: &ActiveEvent) -> (lines: Vec<String>)
    ensures
        crate::text::texts(lines@) == lines_of(event@),
{
    if let Some(items) = event.kind.get_list("lines") {
        return collect_texts(items);
    }
    let line = match event.kind.get_text("description") {
        Some(text) => text.clone(),
        None => event.description.clone(),
    };
    let mut lines: Vec<String> = Vec::new();
    lines.push(line);
    assert(crate::text::texts(lines@) =~= seq![line@]);
    lines
}

fn open_dialogue(event: &ActiveEvent, dialogue: &mut DialogueState)
    ensures
        final(dialogue)@ == dialogue_after(old(dialogue)@, event@),
{
    if dialogue.active {
        return ;
    }
    dialogue.speaker = match event.kind.get_text("speaker") {
        Some(name) => name.clone(),
        None => match event.kind.get_text("enemy_name") {
            Some(name) => name.clone(),
            None => event.name.clone(),
        },
    };
    dialogue.lines = read_lines(event);
    dialogue.active = true;
    dialogue.event_id = event.id.clone();
    dialogue.current_line = 0;
    dialogue.typewriter_index = 0;
}

fn notify(notifications: &mut NotificationQueue, text: String, duration: u32)
    ensures
        notices_of(final(notifications).pending@) == notices_of(old(notifications).pending@).push(
            (text@, duration),
        ),
{
    notifications.notify(text, duration);
    assert(notices_of(notifications.pending@) =~= notices_of(old(notifications).pending@).push(
        (text@, duration),
    ));
}

fn tell_story(event: &ActiveEvent, notifications: &mut NotificationQueue)
    ensures
        notices_of(final(notifications).pending@) == notices_of(old(notifications).pending@)
            + story_notices(event@),
{
    let ghost before = notices_of(notifications.pending@);
    if let Some(items) = event.kind.get_list("lines") {
        let lines = collect_texts(items);
        let ghost told = crate::text::texts(lines@).map_values(|line: Seq<char>| (line, 4u32));
        let mut i: usize = 0;
        assert(notices_of(notifications.pending@) =~= before + told.take(0));
        while i < lines.len()
            invariant
                i <= lines.len(),
                told == crate::text::texts(lines@).map_values(|line: Seq<char>| (line, 4u32)),
                notices_of(notifications.pending@) == before + told.take(i as int),
            decreases lines.len() - i,
        {
            notify(notifications, lines[i].clone(), 4);
            i = i + 1;
            assert(notices_of(notifications.pending@) =~= before + told.take(i as int));
        }
        assert(told.take(i as int) =~= told);
    } else {
        assert(notices_of(notifications.pending@) =~= before + story_notices(event@));
    }
}

fn act_on_new_event(
    event: &ActiveEvent,
    known: &mut Vec<String>,
    dialogue: &mut DialogueState,
    notifications: &mut NotificationQueue,
    shop: &ShopState,
)
    ensures
        scene_of(final(known)@, *final(dialogue), *final(notifications), *shop) == after_new_event(
            scene_of(old(known)@, *old(dialogue), *old(notifications), *shop),
            event@,
        ),
{
    let unknown = String::from_str("unknown");
    let kind = match event.kind.get_text("type") {
        Some(t) => t,
        None => &unknown,
    };
    let kind = kind.as_str();
    if same_text(kind, "boss") || same_text(kind, "random_encounter") {
        // Handled by the combat system.
    } else if same_text(kind, "npc_dialogue") {
        open_dialogue(event, dialogue);
    } else if same_text(kind, "story_beat") {
        tell_story(event, notifications);
    } else if same_text(kind, "treasure") {
        let text = match event.kind.get_text("description") {
            Some(text) => text.clone(),
            None => String::from_str("Found treasure!"),
        };
        notify(notifications, text, 3);
    } else {
        let mut text = event.name.clone();
        text.append(": ");
        text.append(event.description.as_str());
        notify(notifications, text, 3);
    }
    known.push(event.id.clone());
    assert(crate::text::texts(known@) =~= crate::text::texts(old(known)@).push(event.id@));
}

fn act_on_event(
    event: &ActiveEvent,
    known: &mut Vec<String>,
    dialogue: &mut DialogueState,
    notifications: &mut NotificationQueue,
    shop: &mut ShopState,
    here: Option<usize>,
)
    ensures
        scene_of(final(known)@, *final(dialogue), *final(notifications), *final(shop))
            == after_event(
            scene_of(old(known)@, *old(dialogue), *old(notifications), *old(shop)),
            event@,
            here,
        ),
{
    let is_shop = match event.kind.get_text("type") {
        Some(t) => same_text(t.as_str(), "shop"),
        None => {
            proof {
                reveal_strlit("unknown");
                reveal_strlit("shop");
                assert("unknown"@.len() != "shop"@.len());
            }
            false
        },
    };
    if is_shop {
        offer_shop(event, shop, here);
        return ;
    }
    if contains_text(known.as_slice(), event.id.as_str()) {
        return ;
    }
    act_on_new_event(event, known, dialogue, notifications, shop);
}

fn forget_ended(known: &mut Vec<String>, events: &Vec<ActiveEvent>)
    ensures
        crate::text::texts(final(known)@) == still_active(
            crate::text::texts(old(known)@),
            events_of(events@),
        ),
{
    let ghost all = crate::text::texts(known@);
    let ghost actives = events_of(events@);
    let mut kept: Vec<String> = Vec::new();
    let mut i: usize = 0;
    assert(all.take(0) =~= Seq::empty());
    assert(crate::text::texts(kept@) =~= still_active(all.take(0), actives));
    while i < known.len()
        invariant
            i <= known.len(),
            known@ == old(known)@,
            all == crate::text::texts(known@),
            actives == events_of(events@),
            crate::text::texts(kept@) == still_active(all.take(i as int), actives),
        decreases known.len() - i,
    {
        assert(all.take(i + 1).drop_last() =~= all.take(i as int));
        assert(all.take(i + 1).last() == known@[i as int]@);
        let mut active = false;
        let mut j: usize = 0;
        while j < events.len()
            invariant
                j <= events.len(),
                i < known.len(),
                actives == events_of(events@),
                active == (exists|k: int|
                    0 <= k < j && (#[trigger] actives[k]).id == known@[i as int]@),
            decreases events.len() - j,
        {
            assert(actives[j as int] == events@[j as int]@);
            if same_text(events[j].id.as_str(), known[i].as_str()) {
                active = true;
            }
            j = j + 1;
        }
        if active {
            let ghost before = kept@;
            kept.push(known[i].clone());
            assert(crate::text::texts(kept@) =~= crate::text::texts(before).push(
                known@[i as int]@,
            ));
        }
        i = i + 1;
    }
    assert(all.take(all.len() as int) =~= all);
    *known = kept;
}

/// Acts on a report of all active events. `here` is the place that the player
/// stands at, if any.
pub fn poll_active_events(
    events: &Vec<ActiveEvent>,
    known: &mut Vec<String>,
    dialogue: &mut DialogueState,
    notifications: &mut NotificationQueue,
    shop: &mut ShopState,
    here: Option<usize>,
)
    ensures
        scene_of(final(known)@, *final(dialogue), *final(notifications), *final(shop))
            == after_report(
            scene_of(old(known)@, *old(dialogue), *old(notifications), *old(shop)),
            events_of(events@),
            here,
        ),
{
    let ghost all = events_of(events@);
    // Set again if the event of a shop is active at the player's place.
    shop.available = false;
    let ghost start = scene_of(known@, *dialogue, *notifications, *shop);
    let mut i: usize = 0;
    while i < events.len()
        invariant
            i <= events.len(),
            all == events_of(events@),
            scene_of(known@, *dialogue, *notifications, *shop) == after_events(
                start,
                all,
                i as int,
                here,
            ),
        decreases events.len() - i,
    {
        assert(all[i as int] == events@[i as int]@);
        act_on_event(&events[i], known, dialogue, notifications, shop, here);
        i = i + 1;
    }
    forget_ended(known, events);
}

/// Appends notifications that the server sent, four seconds each.
pub fn take_server_notices(notifications: &mut NotificationQueue, notices: &Vec<String>)
    ensures
        notices_of(final(notifications).pending@) == notices_of(old(notifications).pending@)
            + crate::text::texts(notices@).map_values(|line: Seq<char>| (line, 4u32)),
{
    let ghost before = notices_of(notifications.pending@);
    let ghost told = crate::text::texts(notices@).map_values(|line: Seq<char>| (line, 4u32));
    let mut i: usize = 0;
    assert(notices_of(notifications.pending@) =~= before + told.take(0));
    while i < notices.len()
        invariant
            i <= notices.len(),
            told == crate::text::texts(notices@).map_values(|line: Seq<char>| (line, 4u32)),
            notices_of(notifications.pending@) == before + told.take(i as int),
        decreases notices.len() - i,
    {
        notify(notifications, notices[i].clone(), 4);
        i = i + 1;
        assert(notices_of(notifications.pending@) =~= before + told.take(i as int));
    }
    assert(told.take(i as int) =~= told);
}

/// Every event but shops is known once it has been looked at, and nothing
/// known is forgotten on the way.
proof fn lemma_known_grows(scene: Scene, events: Seq<Event>, count: int, here: Option<usize>)
    requires
        0 <= count <= events.len(),
    ensures
        ({
            let known = after_events(scene, events, count, here).known;
            &&& forall|id: Seq<char>| scene.known.contains(id) ==> #[trigger] known.contains(id)
            &&& forall|i: int|
                0 <= i < count && event_type(#[trigger] events[i]) != "shop"@ ==> known.contains(
                    events[i].id,
                )
        }),
    decreases count,
{
    if count > 0 {
        lemma_known_grows(scene, events, count - 1, here);
        let before = after_events(scene, events, count - 1, here);
        let after = after_events(scene, events, count, here);
        let event = events[count - 1];
        if event_type(event) != "shop"@ && !before.known.contains(event.id) {
            assert(after.known == before.known.push(event.id));
            assert(after.known.last() == event.id);
            assert forall|id: Seq<char>| before.known.contains(id) implies #[trigger]
            after.known.contains(id) by {
                let k = choose|k: int| 0 <= k < before.known.len() && before.known[k] == id;
                assert(after.known[k] == id);
            }
        }
    }
}

proof fn lemma_still_active(known: Seq<Seq<char>>, events: Seq<Event>)
    ensures
        forall|id: Seq<char>|
            known.contains(id) && reported(events, id) ==> #[trigger] still_active(
                known,
                events,
            ).contains(id),
        forall|k: int|
            0 <= k < still_active(known, events).len() ==> reported(
                events,
                #[trigger] still_active(known, events)[k],
            ),
    decreases known.len(),
{
    if known.len() > 0 {
        let before = known.drop_last();
        lemma_still_active(before, events);
        let kept = still_active(known, events);
        let kept_before = still_active(before, events);
        assert forall|id: Seq<char>|
            known.contains(id) && reported(events, id) implies #[trigger] kept.contains(id) by {
            if id == known.last() {
                assert(kept.last() == id);
            } else {
                let k = choose|k: int| 0 <= k < known.len() && known[k] == id;
                assert(before[k] == id);
                assert(before.contains(id));
                assert(kept_before.contains(id));
                let m = choose|m: int| 0 <= m < kept_before.len() && kept_before[m] == id;
                assert(kept[m] == id);
            }
        }
        assert forall|k: int| 0 <= k < kept.len() implies reported(events, #[trigger] kept[k]) by {
            if k < kept_before.len() {
                assert(kept[k] == kept_before[k]);
            }
        }
    }
}

proof fn lemma_all_still_active(known: Seq<Seq<char>>, events: Seq<Event>)
    requires
        forall|k: int| 0 <= k < known.len() ==> reported(events, #[trigger] known[k]),
    ensures
        still_active(known, events) == known,
    decreases known.len(),
{
    if known.len() > 0 {
        let before = known.drop_last();
        assert forall|k: int| 0 <= k < before.len() implies reported(
            events,
            #[trigger] before[k],
        ) by {
            assert(before[k] == known[k]);
        }
        lemma_all_still_active(before, events);
        assert(known[known.len() - 1] == known.last());
        assert(before.push(known.last()) =~= known);
    } else {
        assert(known =~= Seq::empty());
    }
}

proof fn lemma_nothing_new(scene: Scene, events: Seq<Event>, count: int, here: Option<usize>)
    requires
        0 <= count <= events.len(),
        forall|i: int|
            0 <= i < events.len() && event_type(#[trigger] events[i]) != "shop"@
                ==> scene.known.contains(events[i].id),
    ensures
        ({
            let after = after_events(scene, events, count, here);
            &&& after.known == scene.known
            &&& after.notices == scene.notices
            &&& after.dialogue == scene.dialogue
        }),
    decreases count,
{
    if count > 0 {
        lemma_nothing_new(scene, events, count - 1, here);
    }
}

/// An event is acted on once while it stays active: reporting the same events
/// again notifies nothing, opens no dialogue and forgets nothing.
pub proof fn active_events_act_once(scene: Scene, events: Seq<Event>, here: Option<usize>)
    ensures
        ({
            let once = after_report(scene, events, here);
            let twice = after_report(once, events, here);
            &&& twice.known == once.known
            &&& twice.notices == once.notices
            &&& twice.dialogue == once.dialogue
        }),
{
    let start = before_report(scene);
    let end = after_events(start, events, events.len() as int, here);
    let once = after_report(scene, events, here);
    lemma_known_grows(start, events, events.len() as int, here);
    lemma_still_active(end.known, events);
    assert forall|i: int|
        0 <= i < events.len() && event_type(#[trigger] events[i])
            != "shop"@ implies once.known.contains(events[i].id) by {
        assert(end.known.contains(events[i].id));
        assert(reported(events, events[i].id));
    }
    lemma_nothing_new(before_report(once), events, events.len() as int, here);
    lemma_all_still_active(once.known, events);
}

proof fn lemma_open_shop(scene: Scene, events: Seq<Event>, count: int, here: Option<usize>)
    requires
        scene.shop.active,
        !scene.shop.available,
        0 <= count <= events.len(),
    ensures
        after_events(scene, events, count, here).shop == (super::shop::Shop {
            available: offers(events.take(count), scene.shop.event_id, here),
            ..scene.shop
        }),
    decreases count,
{
    let id = scene.shop.event_id;
    if count > 0 {
        lemma_open_shop(scene, events, count - 1, here);
        let fewer = events.take(count - 1);
        let more = events.take(count);
        assert(more[count - 1] == events[count - 1]);
        if offers(fewer, id, here) {
            let i = choose|i: int|
                0 <= i < fewer.len() && event_type(#[trigger] fewer[i]) == "shop"@ && is_at(
                    fewer[i],
                    here,
                ) && fewer[i].id == id;
            assert(more[i] == fewer[i]);
        }
        if offers(more, id, here) {
            let i = choose|i: int|
                0 <= i < more.len() && event_type(#[trigger] more[i]) == "shop"@ && is_at(
                    more[i],
                    here,
                ) && more[i].id == id;
            if i < count - 1 {
                assert(fewer[i] == more[i]);
            }
        }
    }
}

/// An open shop closes once the player has left it, and only then: after a
/// report it stays open exactly while its own event is active at the player's
/// place, and its wares stay what they were.
pub proof fn open_shop_closes_behind_the_player(
    scene: Scene,
    events: Seq<Event>,
    here: Option<usize>,
)
    requires
        scene.shop.active,
    ensures
        super::shop::shown(after_report(scene, events, here).shop).active <==> offers(
            events,
            scene.shop.event_id,
            here,
        ),
        after_report(scene, events, here).shop.merchant == scene.shop.merchant,
        after_report(scene, events, here).shop.items == scene.shop.items,
        here is None ==> !super::shop::shown(after_report(scene, events, here).shop).active,
{
    lemma_open_shop(before_report(scene), events, events.len() as int, here);
    assert(events.take(events.len() as int) =~= events);
}

/// The place of a trigger is the one it names itself, else the first that one
/// of its conditions names.
pub proof fn triggers_name_a_place(
    trigger: crate::json::JsonTree,
    conditions: Seq<crate::json::JsonTree>,
    i: int,
)
    ensures
        crate::json::unsigned_field(trigger, "poi_id"@) matches Some(id) ==> poi_of(trigger) == Some(
            id as usize,
        ),
        crate::json::unsigned_field(trigger, "poi_id"@) is None && crate::json::list_field(
            trigger,
            "conditions"@,
        ) is None ==> poi_of(trigger) is None,
        crate::json::unsigned_field(trigger, "poi_id"@) is None && crate::json::list_field(
            trigger,
            "conditions"@,
        ) == Some(conditions) && 0 <= i < conditions.len() && (forall|j: int|
            0 <= j < i ==> crate::json::unsigned_field(#[trigger] conditions[j], "poi_id"@) is None)
            ==> {
            match crate::json::unsigned_field(conditions[i], "poi_id"@) {
                Some(id) => poi_of(trigger) == Some(id as usize),
                None => i == conditions.len() - 1 ==> poi_of(trigger) is None,
            }
        },
{
    if 0 <= i < conditions.len() && (forall|j: int|
        0 <= j < i ==> crate::json::unsigned_field(#[trigger] conditions[j], "poi_id"@) is None) {
        lemma_first_poi(conditions, i);
    }
}

proof fn lemma_first_poi(conditions: Seq<crate::json::JsonTree>, i: int)
    requires
        0 <= i < conditions.len(),
        forall|j: int|
            0 <= j < i ==> crate::json::unsigned_field(#[trigger] conditions[j], "poi_id"@) is None,
    ensures
        match crate::json::unsigned_field(conditions[i], "poi_id"@) {
            Some(id) => first_poi(conditions) == Some(id as usize),
            None => i == conditions.len() - 1 ==> first_poi(conditions) is None,
        },
    decreases i,
{
    let rest = conditions.drop_first();
    if i > 0 {
        assert(crate::json::unsigned_field(conditions[0], "poi_id"@) is None);
        assert forall|j: int| 0 <= j < i - 1 implies crate::json::unsigned_field(
            #[trigger] rest[j],
            "poi_id"@,
        ) is None by {
            assert(rest[j] == conditions[j + 1]);
        }
        lemma_first_poi(rest, i - 1);
    } else if conditions.len() == 1 {
        assert(first_poi(rest) is None);
    }
}

/// A dialogue event that is new opens a dialogue unless one is open: it says
/// the texts of the event's own list of lines, all of them in order; only
/// without such a list it says the description of the event's kind, and only
/// without that the event's own. It starts at the first character of the first
/// line, and the speaker is the one the event names.
pub proof fn dialogues_say_what_the_event_says(scene: Scene, event: Event, here: Option<usize>)
    requires
        crate::json::text_field(event.kind, "type"@) == Some("npc_dialogue"@),
        !scene.known.contains(event.id),
    ensures
        ({
            let after = after_event(scene, event, here);
            &&& after.known == scene.known.push(event.id)
            &&& after.notices == scene.notices
            &&& after.shop == scene.shop
            &&& scene.dialogue.active ==> after.dialogue == scene.dialogue
            &&& !scene.dialogue.active ==> {
                let said = after.dialogue;
                &&& said.active
                &&& said.event_id == event.id
                &&& said.current_line == 0
                &&& said.typed == 0
                &&& match crate::json::list_field(event.kind, "lines"@) {
                    Some(items) => said.lines == crate::json::texts_in(items),
                    None => {
                        &&& said.lines.len() == 1
                        &&& match crate::json::text_field(event.kind, "description"@) {
                            Some(text) => said.lines[0] == text,
                            None => said.lines[0] == event.description,
                        }
                    },
                }
                &&& match crate::json::text_field(event.kind, "speaker"@) {
                    Some(name) => said.speaker == name,
                    None => match crate::json::text_field(event.kind, "enemy_name"@) {
                        Some(name) => said.speaker == name,
                        None => said.speaker == event.name,
                    },
                }
            }
        }),
{
    lemma_kinds_differ();
}

/// Where every line of a dialogue event is a text, the dialogue that a report
/// of it opens has exactly these lines.
pub proof fn lines_of_a_report_are_said(
    scene: Scene,
    event: Event,
    here: Option<usize>,
    items: Seq<crate::json::JsonTree>,
    lines: Seq<Seq<char>>,
)
    requires
        crate::json::text_field(event.kind, "type"@) == Some("npc_dialogue"@),
        !scene.known.contains(event.id),
        !scene.dialogue.active,
        crate::json::list_field(event.kind, "lines"@) == Some(items),
        items.len() == lines.len(),
        forall|i: int|
            0 <= i < items.len() ==> #[trigger] items[i] == crate::json::JsonTree::Text(lines[i]),
    ensures
        after_report(scene, seq![event], here).dialogue.active,
        after_report(scene, seq![event], here).dialogue.lines == lines,
        after_report(scene, seq![event], here).dialogue.event_id == event.id,
{
    crate::json::lists_of_texts_are_kept(items, lines);
    let start = before_report(scene);
    dialogues_say_what_the_event_says(start, event, here);
    let events = seq![event];
    assert(after_events(start, events, 0, here) == start);
    assert(after_events(start, events, 1, here) == after_event(start, event, here));
}

/// What the other kinds of new events do: a story beat notifies its lines for
/// four seconds each, a treasure what it is for three, anything else its name
/// and description for three; bosses and encounters are only remembered. None
/// of them touches the dialogue or the shop.
pub proof fn new_events_are_notified(scene: Scene, event: Event, here: Option<usize>)
    requires
        !scene.known.contains(event.id),
        event_type(event) != "shop"@,
        event_type(event) != "npc_dialogue"@,
    ensures
        ({
            let after = after_event(scene, event, here);
            let kind = event_type(event);
            &&& after.known == scene.known.push(event.id)
            &&& after.dialogue == scene.dialogue
            &&& after.shop == scene.shop
            &&& kind == "boss"@ || kind == "random_encounter"@ ==> after.notices == scene.notices
            &&& kind == "story_beat"@ ==> match crate::json::list_field(event.kind, "lines"@) {
                Some(items) => {
                    let told = crate::json::texts_in(items);
                    &&& after.notices.len() == scene.notices.len() + told.len()
                    &&& after.notices.take(scene.notices.len() as int) == scene.notices
                    &&& forall|k: int|
                        0 <= k < told.len() ==> after.notices[#[trigger] (scene.notices.len() + k)]
                            == (told[k], 4u32)
                },
                None => after.notices == scene.notices,
            }
            &&& kind == "treasure"@ ==> {
                &&& after.notices.len() == scene.notices.len() + 1
                &&& after.notices.drop_last() == scene.notices
                &&& after.notices.last().1 == 3
                &&& match crate::json::text_field(event.kind, "description"@) {
                    Some(text) => after.notices.last().0 == text,
                    None => after.notices.last().0 == "Found treasure!"@,
                }
            }
            &&& kind != "boss"@ && kind != "random_encounter"@ && kind != "story_beat"@ && kind
                != "treasure"@ ==> {
                &&& after.notices.len() == scene.notices.len() + 1
                &&& after.notices.drop_last() == scene.notices
                &&& after.notices.last() == (event.name + ": "@ + event.description, 3u32)
            }
        }),
{
    lemma_kinds_differ();
    let after = after_event(scene, event, here);
    if event_type(event) == "story_beat"@ {
        assert(after.notices.take(scene.notices.len() as int) =~= scene.notices);
        assert(scene.notices + Seq::<(Seq<char>, u32)>::empty() =~= scene.notices);
    } else if event_type(event) != "boss"@ && event_type(event) != "random_encounter"@ {
        assert(after.notices.drop_last() =~= scene.notices);
    }
}

/// The kind of an event is the text under `type`; without one it is no kind
/// that anything special is done for.
pub proof fn kinds_are_named(event: Event)
    ensures
        crate::json::text_field(event.kind, "type"@) matches Some(t) ==> event_type(event) == t,
        crate::json::text_field(event.kind, "type"@) is None ==> {
            &&& event_type(event) != "shop"@
            &&& event_type(event) != "npc_dialogue"@
            &&& event_type(event) != "boss"@
            &&& event_type(event) != "random_encounter"@
            &&& event_type(event) != "story_beat"@
            &&& event_type(event) != "treasure"@
        },
{
    lemma_kinds_differ();
}

proof fn lemma_kinds_differ()
    ensures
        "unknown"@ != "shop"@ && "unknown"@ != "npc_dialogue"@ && "unknown"@ != "boss"@ && "unknown"@
            != "random_encounter"@ && "unknown"@ != "story_beat"@ && "unknown"@ != "treasure"@,
        "npc_dialogue"@ != "shop"@ && "npc_dialogue"@ != "boss"@ && "npc_dialogue"@
            != "random_encounter"@,
        "story_beat"@ != "shop"@ && "story_beat"@ != "boss"@ && "story_beat"@
            != "random_encounter"@ && "story_beat"@ != "npc_dialogue"@,
        "treasure"@ != "boss"@ && "treasure"@ != "random_encounter"@ && "treasure"@
            != "npc_dialogue"@ && "treasure"@ != "story_beat"@,
{
    reveal_strlit("unknown");
    reveal_strlit("shop");
    reveal_strlit("npc_dialogue");
    reveal_strlit("boss");
    reveal_strlit("random_encounter");
    reveal_strlit("story_beat");
    reveal_strlit("treasure");
    assert("unknown"@.len() == 7 && "shop"@.len() == 4 && "npc_dialogue"@.len() == 12);
    assert("boss"@.len() == 4 && "random_encounter"@.len() == 16 && "story_beat"@.len() == 10);
    assert("treasure"@.len() == 8);
}

/// An event that was acted on before does nothing more.
pub proof fn known_events_do_nothing(scene: Scene, event: Event, here: Option<usize>)
    requires
        scene.known.contains(event.id),
        event_type(event) != "shop"@,
    ensures
        after_event(scene, event, here) == scene,
{
}

/// The event of a shop at whose place the player stands offers that shop, with
/// its merchant and its wares, unless one is open; elsewhere it does nothing.
pub proof fn shops_are_offered_at_their_place(scene: Scene, event: Event, here: Option<usize>)
    requires
        event_type(event) == "shop"@,
        !scene.shop.active,
    ensures
        ({
            let after = after_event(scene, event, here);
            &&& after.known == scene.known
            &&& after.notices == scene.notices
            &&& after.dialogue == scene.dialogue
            &&& poi_of(event.trigger) is None || poi_of(event.trigger) != here ==> after.shop
                == scene.shop
            &&& poi_of(event.trigger) is Some && poi_of(event.trigger) == here ==> {
                &&& after.shop.available
                &&& !after.shop.active
                &&& after.shop.event_id == event.id
                &&& match crate::json::text_field(event.kind, "merchant_name"@) {
                    Some(name) => after.shop.merchant == name,
                    None => after.shop.merchant == "Merchant"@,
                }
                &&& match crate::json::list_field(event.kind, "items"@) {
                    Some(items) => after.shop.items == wares_in(items),
                    None => after.shop.items.len() == 0,
                }
            }
        }),
{
}

/// A ware is a value with a name and a whole cost; wares keep their order, and
/// anything else on the list is left out.
pub proof fn wares_have_a_name_and_a_cost(
    items: Seq<crate::json::JsonTree>,
    value: crate::json::JsonTree,
)
    ensures
        wares_in(Seq::empty()).len() == 0,
        ({
            let name = crate::json::text_field(value, "name"@);
            let cost = crate::json::signed_field(value, "cost"@);
            let before = wares_in(items);
            let after = wares_in(items.push(value));
            if name is Some && cost is Some {
                &&& after.len() == before.len() + 1
                &&& after.drop_last() == before
                &&& after.last() == (name->0, cost->0 as i32)
            } else {
                after == before
            }
        }),
{
    assert(items.push(value).drop_last() =~= items);
    let before = wares_in(items);
    if crate::json::text_field(value, "name"@) is Some && crate::json::signed_field(value, "cost"@)
        is Some {
        assert(wares_in(items.push(value)).drop_last() =~= before);
    }
}

/// Without the event of a shop at the player's place, no shop is offered.
pub proof fn no_shop_is_offered_elsewhere(scene: Scene, events: Seq<Event>, here: Option<usize>)
    requires
        forall|i: int|
            0 <= i < events.len() && event_type(#[trigger] events[i]) == "shop"@ ==> poi_of(
                events[i].trigger,
            ) is None || poi_of(events[i].trigger) != here,
    ensures
        !after_report(scene, events, here).shop.available,
        !super::shop::shown(after_report(scene, events, here).shop).active,
{
    lemma_no_shop(before_report(scene), events, events.len() as int, here);
}

proof fn lemma_no_shop(scene: Scene, events: Seq<Event>, count: int, here: Option<usize>)
    requires
        0 <= count <= events.len(),
        !scene.shop.available,
        forall|i: int|
            0 <= i < events.len() && event_type(#[trigger] events[i]) == "shop"@ ==> poi_of(
                events[i].trigger,
            ) is None || poi_of(events[i].trigger) != here,
    ensures
        !after_events(scene, events, count, here).shop.available,
    decreases count,
{
    if count > 0 {
        lemma_no_shop(scene, events, count - 1, here);
    }
}

/// Events act one after the other, and what a report leaves is what they left,
/// but that the ids of events that are over are forgotten.
pub proof fn events_act_in_turn(scene: Scene, events: Seq<Event>, event: Event, here: Option<usize>)
    ensures
        ({
            let n = events.len() as int;
            let so_far = after_events(before_report(scene), events, n, here);
            let then = after_event(so_far, event, here);
            let report = after_report(scene, events.push(event), here);
            &&& after_events(before_report(scene), events, 0, here) == before_report(scene)
            &&& report.dialogue == then.dialogue
            &&& report.notices == then.notices
            &&& report.shop == then.shop
            &&& forall|id: Seq<char>| #[trigger]
                report.known.contains(id) <==> then.known.contains(id) && (id == event.id || exists|
                    i: int,
                |
                    0 <= i < events.len() && (#[trigger] events[i]).id == id)
        }),
{
    let n = events.len() as int;
    let all = events.push(event);
    let start = before_report(scene);
    lemma_events_prefix(start, events, event, n, here);
    let then = after_events(start, all, n + 1, here);
    lemma_still_active(then.known, all);
    lemma_still_active_known(then.known, all);
    assert(all[n] == event);
    assert forall|id: Seq<char>| reported(all, id) <==> (id == event.id || exists|i: int|
        0 <= i < events.len() && (#[trigger] events[i]).id == id) by {
        if reported(all, id) {
            let i = choose|i: int| 0 <= i < all.len() && (#[trigger] all[i]).id == id;
            if i < n {
                assert(events[i].id == id);
            }
        }
        if exists|i: int| 0 <= i < events.len() && (#[trigger] events[i]).id == id {
            let i = choose|i: int| 0 <= i < events.len() && (#[trigger] events[i]).id == id;
            assert(all[i].id == id);
        }
        if id == event.id {
            assert(all[n].id == id);
        }
    }
    let report = after_report(scene, all, here);
    assert forall|id: Seq<char>| #[trigger] report.known.contains(id) implies reported(all, id) by {
        let k = choose|k: int| 0 <= k < report.known.len() && report.known[k] == id;
        assert(still_active(then.known, all)[k] == id);
    }
}

proof fn lemma_events_prefix(
    scene: Scene,
    events: Seq<Event>,
    event: Event,
    count: int,
    here: Option<usize>,
)
    requires
        0 <= count <= events.len(),
    ensures
        after_events(scene, events.push(event), count, here) == after_events(
            scene,
            events,
            count,
            here,
        ),
    decreases count,
{
    if count > 0 {
        lemma_events_prefix(scene, events, event, count - 1, here);
    }
}

proof fn lemma_still_active_known(known: Seq<Seq<char>>, events: Seq<Event>)
    ensures
        forall|id: Seq<char>| #[trigger]
            still_active(known, events).contains(id) ==> known.contains(id),
    decreases known.len(),
{
    if known.len() > 0 {
        lemma_still_active_known(known.drop_last(), events);
        let kept = still_active(known, events);
        let before = still_active(known.drop_last(), events);
        assert forall|id: Seq<char>| #[trigger] kept.contains(id) implies known.contains(id) by {
            let k = choose|k: int| 0 <= k < kept.len() && kept[k] == id;
            if k < before.len() {
                assert(before[k] == id);
                assert(before.contains(id));
                let m = choose|m: int|
                    0 <= m < known.drop_last().len() && known.drop_last()[m] == id;
                assert(known[m] == id);
            } else {
                assert(known[known.len() - 1] == id);
            }
        }
    }
}

/// The scene holds what it is made of, each in its order.
pub proof fn the_scene_holds_everything(
    known: Seq<String>,
    dialogue: DialogueState,
    notifications: NotificationQueue,
    shop: ShopState,
    i: int,
)
    ensures
        ({
            let scene = scene_of(known, dialogue, notifications, shop);
            &&& scene.known.len() == known.len()
            &&& 0 <= i < known.len() ==> scene.known[i] == known[i]@
            &&& scene.notices.len() == notifications.pending@.len()
            &&& 0 <= i < notifications.pending@.len() ==> scene.notices[i] == (
                notifications.pending@[i].text@,
                notifications.pending@[i].duration,
            )
            &&& scene.dialogue.active == dialogue.active
            &&& scene.dialogue.event_id == dialogue.event_id@
            &&& scene.dialogue.speaker == dialogue.speaker@
            &&& scene.dialogue.lines.len() == dialogue.lines@.len()
            &&& 0 <= i < dialogue.lines@.len() ==> scene.dialogue.lines[i] == dialogue.lines@[i]@
            &&& scene.dialogue.current_line == dialogue.current_line
            &&& scene.dialogue.typed == dialogue.typewriter_index
            &&& scene.shop.active == shop.active
            &&& scene.shop.available == shop.available
            &&& scene.shop.event_id == shop.event_id@
            &&& scene.shop.merchant == shop.merchant_name@
            &&& scene.shop.items.len() == shop.items@.len()
            &&& 0 <= i < shop.items@.len() ==> scene.shop.items[i] == (
                shop.items@[i].item_id@,
                shop.items@[i].cost,
            )
        }),
{
}

/// The contents of events are all that the server has told of them.
pub proof fn events_hold_what_was_told(list: Seq<ActiveEvent>, i: int)
    requires
        0 <= i < list.len(),
    ensures
        events_of(list).len() == list.len(),
        ({
            let event = events_of(list)[i];
            event.id == list[i].id@ && event.name == list[i].name@ && event.description
                == list[i].description@ && event.kind == list[i].kind.tree() && event.trigger
                == list[i].trigger.tree()
        }),
{
}

} // verus!
