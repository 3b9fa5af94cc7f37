//! Fast travel: a panel with the gates that the player has unlocked.

use vstd::prelude::*;
use vstd::string::StringExecFns;

use crate::text::{append_decimal, decimal_text};

verus! {

/// A gate that the player has unlocked.
#[derive(Debug)]
pub struct GateRow {
    pub id: usize,
    pub name: String,
    pub x: usize,
    pub y: usize,
}

/// Whether the panel is open.
#[derive(Debug, Clone, Copy, PartialEq, Eq, Structural)]
pub struct TravelMenuState {
    pub panel_open: bool,
}

/// A click on the menu button opens or closes the panel. Tells whether the
/// gates are fetched: each time it opens.
pub fn handle_button_click(state: &mut TravelMenuState) -> (fetch: bool)
    ensures
        fetch == !old(state).panel_open,
        final(state).panel_open == fetch,
{
    state.panel_open = !state.panel_open;
    state.panel_open
}

/// Path of the gates of a player.
pub fn gates_path(player_id: &str) -> (path: String)
    ensures
        path@ == "/travel_gates?player_id="@ + player_id@,
{
    let mut path = String::from_str("/travel_gates?player_id=");
    path.append(player_id);
    path
}

/// A button of the panel.
#[derive(Debug)]
pub struct GateButton {
    pub gate_id: usize,
    pub title: String,
    pub place: String,
}

/// The button stands for the row.
pub open spec fn is_button_of(button: GateButton, gate: GateRow) -> bool {
    &&& button.gate_id == gate.id
    &&& button.title@ == "→ "@ + gate.name@
    &&& button.place@ == "("@ + decimal_text(gate.x as nat) + ", "@ + decimal_text(gate.y as nat)
        + ")"@
}

fn gate_button(gate: &GateRow) -> (button: GateButton)
    ensures
        is_button_of(button, *gate),
{
    let mut title = String::from_str("→ ");
    title.append(gate.name.as_str());
    let mut place = String::from_str("(");
    append_decimal(&mut place, gate.x as u64);
    place.append(", ");
    append_decimal(&mut place, gate.y as u64);
    place.append(")");
    GateButton { gate_id: gate.id, title, place }
}

/// The buttons of the panel once the gates have arrived: one for each, none
/// for a player without gates, who is told how to unlock one. `None` leaves
/// the screen as it is: the panel is closed, or nothing has arrived.
pub fn apply_fetched_gates(state: &TravelMenuState, fetched: &Option<Vec<GateRow>>) -> (buttons:
    Option<Vec<GateButton>>)
    ensures
        buttons is Some <==> state.panel_open && *fetched is Some,
        buttons matches Some(list) ==> {
            &&& list@.len() == fetched->0@.len()
            &&& forall|i: int|
                0 <= i < list@.len() ==> is_button_of(#[trigger] list@[i], fetched->0@[i])
        },
{
    if !state.panel_open {
        return None;
    }
    match fetched {
        Some(gates) => {
            let mut buttons: Vec<GateButton> = Vec::new();
            let mut i: usize = 0;
            while i < gates.len()
                invariant
                    i <= gates.len(),
                    buttons.len() == i,
                    forall|j: int| 0 <= j < i ==> is_button_of(#[trigger] buttons@[j], gates@[j]),
                decreases gates.len() - i,
            {
                buttons.push(gate_button(&gates[i]));
                i = i + 1;
            }
            Some(buttons)
        },
        None => None,
    }
}

/// A click on a gate closes the panel and returns the body of the request.
pub fn handle_gate_click(state: &mut TravelMenuState, player_id: &str, gate_id: usize) -> (body:
    String)
    ensures
        !final(state).panel_open,
        body@ == "{\"player_id\":\""@ + player_id@ + "\",\"gate_id\":"@ + decimal_text(
            gate_id as nat,
        ) + "}"@,
{
    state.panel_open = false;
    let mut body = String::from_str("{\"player_id\":\"");
    body.append(player_id);
    body.append("\",\"gate_id\":");
    append_decimal(&mut body, gate_id as u64);
    body.append("}");
    body
}

/// Buttons of the same gate are alike; gates of other names, ids or places
/// have other buttons.
pub proof fn gates_have_their_own_buttons(
    one: GateButton,
    other: GateButton,
    a: GateRow,
    b: GateRow,
)
    requires
        is_button_of(one, a),
        is_button_of(other, b),
    ensures
        one.gate_id == other.gate_id <==> a.id == b.id,
        one.title@ == other.title@ <==> a.name@ == b.name@,
        a.x == b.x && a.y == b.y ==> one.place@ == other.place@,
        one.title@.len() == a.name@.len() + 2,
        one.title@.skip(2) == a.name@,
        one.place@.first() == '(' && one.place@.last() == ')',
        one.place@.subrange(1, 1 + decimal_text(a.x as nat).len() as int) == decimal_text(
            a.x as nat,
        ),
        one.place@.drop_last().skip(3 + decimal_text(a.x as nat).len() as int) == decimal_text(
            a.y as nat,
        ),
{
    reveal_strlit("→ ");
    reveal_strlit("(");
    reveal_strlit(")");
    reveal_strlit(", ");
    assert("→ "@.len() == 2 && ", "@.len() == 2 && "("@.len() == 1 && ")"@.len() == 1);
    let (x, y) = (decimal_text(a.x as nat), decimal_text(a.y as nat));
    assert(one.place@.subrange(1, 1 + x.len() as int) =~= x);
    assert(one.place@.drop_last().skip(3 + x.len() as int) =~= y);
    assert(("→ "@ + a.name@).skip(2) =~= a.name@);
    assert(("→ "@ + b.name@).skip(2) =~= b.name@);
}

} // verus!
