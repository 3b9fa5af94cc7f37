//! Boon picker: a panel with the boons that the player may choose from.

use vstd::prelude::*;
use vstd::string::StringExecFns;

use crate::hud::boons::BoonInfo;
use crate::player::PendingBoonChoice;
use crate::text::{copy_texts, same_text, same_texts, texts};

verus! {

/// Whether the picker is open.
pub fn picker_active(pending: &Option<PendingBoonChoice>) -> (active: bool)
    ensures
        active == (*pending is Some),
{
    pending.is_some()
}

/// The boons that a choice offers.
pub open spec fn offered(choice: Option<PendingBoonChoice>) -> Option<Seq<Seq<char>>> {
    match choice {
        Some(c) => Some(texts(c.choices@)),
        None => None,
    }
}

/// A card of the picker.
#[derive(Debug)]
pub struct BoonCard {
    pub boon_id: String,
    pub name: String,
    pub description: String,
}

/// The first boon of the catalog with that id.
pub open spec fn find_boon(catalog: Seq<BoonInfo>, id: Seq<char>) -> Option<BoonInfo>
    decreases catalog.len(),
{
    if catalog.len() == 0 {
        None
    } else if catalog[0].id@ == id {
        Some(catalog[0])
    } else {
        find_boon(catalog.drop_first(), id)
    }
}

/// The card shows the boon, or a placeholder for one that is not known.
pub open spec fn is_card_of(card: BoonCard, catalog: Seq<BoonInfo>, id: Seq<char>) -> bool {
    &&& card.boon_id@ == id
    &&& match find_boon(catalog, id) {
        Some(boon) => card.name@ == boon.name@ && card.description@ == boon.description@,
        None => card.name@ == "Unknown"@ && card.description@ == "—"@,
    }
}

/// One card for each boon on offer.
pub open spec fn are_cards_of(
    cards: Seq<BoonCard>,
    catalog: Seq<BoonInfo>,
    choices: Seq<Seq<char>>,
) -> bool {
    &&& cards.len() == choices.len()
    &&& forall|i: int| 0 <= i < cards.len() ==> is_card_of(#[trigger] cards[i], catalog, choices[i])
}

fn spawn_card(catalog: &Vec<BoonInfo>, id: &String) -> (card: BoonCard)
    ensures
        is_card_of(card, catalog@, id@),
{
    let mut i: usize = 0;
    assert(catalog@.skip(0) =~= catalog@);
    while i < catalog.len()
        invariant
            i <= catalog.len(),
            find_boon(catalog@, id@) == find_boon(catalog@.skip(i as int), id@),
        decreases catalog.len() - i,
    {
        let boon = &catalog[i];
        assert(catalog@.skip(i as int)[0] == *boon);
        assert(catalog@.skip(i as int).drop_first() =~= catalog@.skip(i + 1));
        if same_text(boon.id.as_str(), id.as_str()) {
            return BoonCard {
                boon_id: boon.id.clone(),
                name: boon.name.clone(),
                description: boon.description.clone(),
            };
        }
        i = i + 1;
    }
    BoonCard {
        boon_id: id.clone(),
        name: String::from_str("Unknown"),
        description: String::from_str("—"),
    }
}

fn spawn_cards(catalog: &Vec<BoonInfo>, choices: &Vec<String>) -> (cards: Vec<BoonCard>)
    ensures
        are_cards_of(cards@, catalog@, texts(choices@)),
{
    let mut cards: Vec<BoonCard> = Vec::new();
    let mut i: usize = 0;
    while i < choices.len()
        invariant
            i <= choices.len(),
            cards.len() == i,
            forall|j: int|
                0 <= j < i ==> is_card_of(#[trigger] cards@[j], catalog@, texts(choices@)[j]),
        decreases choices.len() - i,
    {
        let ghost before = cards@;
        cards.push(spawn_card(catalog, &choices[i]));
        assert forall|j: int| 0 <= j < i + 1 implies is_card_of(
            #[trigger] cards@[j],
            catalog@,
            texts(choices@)[j],
        ) by {
            if j < i {
                assert(cards@[j] == before[j]);
            }
        }
        i = i + 1;
    }
    cards
}

/// What to do about the picker.
#[derive(Debug)]
pub enum PickerStep {
    Keep,
    Close,
    /// Show these cards in place of what was shown.
    Open(Vec<BoonCard>),
}

fn same_choice(a: &Option<PendingBoonChoice>, b: &Option<PendingBoonChoice>) -> (same: bool)
    ensures
        same == (offered(*a) == offered(*b)),
{
    match (a, b) {
        (Some(x), Some(y)) => same_texts(&x.choices, &y.choices),
        (None, None) => true,
        _ => false,
    }
}

/// Builds the picker when a choice comes up or changes, and closes it when the
/// server has taken the choice away.
pub fn rebuild_panel(
    pending: &Option<PendingBoonChoice>,
    has_panel: bool,
    catalog: &Vec<BoonInfo>,
    last_pending: &mut Option<PendingBoonChoice>,
) -> (step: PickerStep)
    ensures
        offered(*final(last_pending)) == offered(*pending),
        offered(*pending) == offered(*old(last_pending)) && (*pending is Some) == has_panel
            ==> step is Keep,
        offered(*pending) != offered(*old(last_pending)) || (*pending is Some) != has_panel
            ==> match *pending {
            Some(choice) => step matches PickerStep::Open(cards) && are_cards_of(
                cards@,
                catalog@,
                texts(choice.choices@),
            ),
            None => step is Close,
        },
{
    if same_choice(pending, last_pending) && pending.is_some() == has_panel {
        return PickerStep::Keep;
    }
    match pending {
        Some(choice) => {
            *last_pending = Some(PendingBoonChoice { choices: copy_texts(&choice.choices) });
            PickerStep::Open(spawn_cards(catalog, &choice.choices))
        },
        None => {
            *last_pending = None;
            PickerStep::Close
        },
    }
}

/// Body with which a boon is chosen.
pub fn select_boon_body(player_id: &str, boon_id: &str) -> (body: String)
    ensures
        body@ == "{\"player_id\":\""@ + player_id@ + "\",\"boon_id\":\""@ + boon_id@ + "\"}"@,
{
    let mut body = String::from_str("{\"player_id\":\"");
    body.append(player_id);
    body.append("\",\"boon_id\":\"");
    body.append(boon_id);
    body.append("\"}");
    body
}

/// The first boon of the catalog with an id is the one that counts; an id that
/// no boon has is not found.
pub proof fn first_boon_counts(catalog: Seq<BoonInfo>, boon: BoonInfo, id: Seq<char>)
    ensures
        find_boon(Seq::empty(), id) is None,
        boon.id@ == id ==> find_boon(seq![boon] + catalog, id) == Some(boon),
        boon.id@ != id ==> find_boon(seq![boon] + catalog, id) == find_boon(catalog, id),
{
    assert((seq![boon] + catalog).drop_first() =~= catalog);
    assert((seq![boon] + catalog)[0] == boon);
}

/// A card names and describes the boon on offer; one that is in no catalog is
/// offered all the same, as unknown.
pub proof fn cards_show_their_boon(card: BoonCard, catalog: Seq<BoonInfo>, id: Seq<char>)
    requires
        is_card_of(card, catalog, id),
    ensures
        card.boon_id@ == id,
        catalog.len() == 0 ==> card.name@ == "Unknown"@ && card.description@ == "—"@,
        catalog.len() > 0 && catalog[0].id@ == id ==> card.name@ == catalog[0].name@
            && card.description@ == catalog[0].description@,
{
}

/// Two choices offer the same exactly if they list the same boons in the same
/// order; a choice of nothing is still a choice.
pub proof fn what_choices_offer(a: PendingBoonChoice, b: PendingBoonChoice)
    ensures
        offered(None) is None,
        offered(Some(a)) is Some,
        offered(Some(a)) == offered(Some(b)) <==> texts(a.choices@) == texts(b.choices@),
{
}

/// There is a card for every boon on offer, in the order of the offer.
pub proof fn cards_stand_in_order(
    cards: Seq<BoonCard>,
    catalog: Seq<BoonInfo>,
    choices: Seq<Seq<char>>,
    i: int,
)
    requires
        are_cards_of(cards, catalog, choices),
    ensures
        cards.len() == choices.len(),
        0 <= i < choices.len() ==> cards[i].boon_id@ == choices[i] && is_card_of(
            cards[i],
            catalog,
            choices[i],
        ),
{
}

} // verus!
