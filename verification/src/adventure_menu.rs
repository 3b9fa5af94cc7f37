//! Adventure switcher: a panel with the adventures that can be started.

use vstd::prelude::*;
use vstd::string::StringExecFns;

use crate::text::same_text;

verus! {

/// Whether the panel is open.
#[derive(Debug, Clone, Copy, PartialEq, Eq, Structural)]
pub struct AdventureMenuState {
    pub panel_open: bool,
}

/// A button of the panel.
#[derive(Debug)]
pub struct AdventureChoice {
    pub id: &'static str,
    pub label: String,
    pub is_current: bool,
}

/// The adventure that a player is in; the first one until the server has told.
pub open spec fn current_adventure(adventure_id: Seq<char>) -> Seq<char> {
    if adventure_id.len() == 0 {
        "frost_quest"@
    } else {
        adventure_id
    }
}

/// The player's current adventure.
pub fn player_current_adventure(adventure_id: &str) -> (id: &str)
    ensures
        id@ == current_adventure(adventure_id@),
{
    if adventure_id.is_empty() {
        "frost_quest"
    } else {
        adventure_id
    }
}

/// What the button of an adventure says.
pub open spec fn choice_label(name: Seq<char>, is_current: bool) -> Seq<char> {
    if is_current {
        "• "@ + name + " (current)"@
    } else {
        "Start: "@ + name
    }
}

/// The button offers the adventure.
pub open spec fn is_choice(
    choice: AdventureChoice,
    id: Seq<char>,
    name: Seq<char>,
    adventure_id: Seq<char>,
) -> bool {
    &&& choice.id@ == id
    &&& choice.is_current == (id == current_adventure(adventure_id))
    &&& choice.label@ == choice_label(name, choice.is_current)
}

fn build_choice(id: &'static str, name: &str, adventure_id: &str) -> (choice: AdventureChoice)
    ensures
        is_choice(choice, id@, name@, adventure_id@),
{
    let is_current: bool = same_text(id, player_current_adventure(adventure_id));
    let mut label = String::from_str(
        if is_current {
            "• "
        } else {
            "Start: "
        },
    );
    label.append(name);
    if is_current {
        label.append(" (current)");
    }
    AdventureChoice { id, label, is_current }
}

/// A click on the menu button closes the open panel, or opens it with the
/// adventures there are. `None` when it is closed.
pub fn handle_button_click(state: &mut AdventureMenuState, adventure_id: &str) -> (choices: Option<
    Vec<AdventureChoice>,
>)
    ensures
        final(state).panel_open == !old(state).panel_open,
        choices is Some <==> !old(state).panel_open,
        choices matches Some(list) ==> list.len() == 2 && is_choice(
            list@[0],
            "frost_quest"@,
            "The Frost Lord"@,
            adventure_id@,
        ) && is_choice(list@[1], "chaos"@, "Chaos Unleashed"@, adventure_id@),
{
    if state.panel_open {
        state.panel_open = false;
        return None;
    }
    state.panel_open = true;
    let mut choices: Vec<AdventureChoice> = Vec::new();
    choices.push(build_choice("frost_quest", "The Frost Lord", adventure_id));
    choices.push(build_choice("chaos", "Chaos Unleashed", adventure_id));
    Some(choices)
}

/// Question before an adventure is started.
pub fn switch_prompt(adventure_id: &str) -> (prompt: String)
    ensures
        prompt@ == "Switch to '"@ + adventure_id@
            + "'?\nYour current character will be reset (boons are kept)."@,
{
    let mut prompt = String::from_str("Switch to '");
    prompt.append(adventure_id);
    prompt.append("'?\nYour current character will be reset (boons are kept).");
    prompt
}

/// Body with which an adventure is started.
pub fn start_adventure_body(player_id: &str, adventure_id: &str) -> (body: String)
    ensures
        body@ == "{\"player_id\":\""@ + player_id@ + "\",\"adventure_id\":\""@ + adventure_id@
            + "\"}"@,
{
    let mut body = String::from_str("{\"player_id\":\"");
    body.append(player_id);
    body.append("\",\"adventure_id\":\"");
    body.append(adventure_id);
    body.append("\"}");
    body
}

/// A player whom the server has told no adventure is in the first one.
pub proof fn the_first_adventure_comes_first(adventure_id: Seq<char>)
    ensures
        adventure_id.len() > 0 ==> current_adventure(adventure_id) == adventure_id,
        adventure_id.len() == 0 ==> current_adventure(adventure_id) == "frost_quest"@,
        current_adventure(current_adventure(adventure_id)) == current_adventure(adventure_id),
{
}

/// The current adventure is marked, and the others can be started.
pub proof fn only_the_current_adventure_is_marked(
    choice: AdventureChoice,
    id: Seq<char>,
    name: Seq<char>,
    adventure_id: Seq<char>,
)
    requires
        is_choice(choice, id, name, adventure_id),
        adventure_id.len() > 0,
    ensures
        choice.id@ == id,
        choice.is_current <==> id == adventure_id,
        id == adventure_id ==> choice.label@ == "• "@ + name + " (current)"@,
        id != adventure_id ==> choice.label@ == "Start: "@ + name,
{
}

} // verus!
