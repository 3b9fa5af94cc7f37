//! Combat: what the server reports of a fight, and the overlay that shows it.

use vstd::prelude::*;
use vstd::string::StringExecFns;

use crate::reconcile::{manage_layer, LayerAction};
use crate::text::{append_decimal, append_signed, decimal_text, same_text, signed_text};

verus! {

/// A fight as the server reports it.
#[derive(Debug)]
pub struct CombatState {
    /// The fight goes on.
    pub fighting: bool,
    pub difficulty: u32,
    pub description: String,
    pub enemy_name: String,
    pub enemy_hp: i32,
    pub enemy_max_hp: i32,
    pub player_level: u32,
    pub player_hp: i32,
    pub player_max_hp: i32,
    pub min_level: u32,
    pub recommended_level: u32,
    /// What happened so far, a message each.
    pub turn_log: Vec<String>,
}

/// Client-side combat state, updated from server polls.
#[derive(Debug)]
pub struct CombatUiState {
    pub active: bool,
    pub state: Option<CombatState>,
    /// True while an action of the player waits for its answer.
    pub action_pending: bool,
}

impl Default for CombatUiState {
    fn default() -> (combat: CombatUiState)
        ensures
            !combat.active,
            combat.state is None,
            !combat.action_pending,
    {
        CombatUiState { active: false, state: None, action_pending: false }
    }
}

/// Whether the combat overlay is active.
pub fn combat_active(combat: &CombatUiState) -> (active: bool)
    ensures
        active == combat.active,
{
    combat.active
}

/// What an answer to a combat poll means.
#[derive(Debug, Clone, Copy, PartialEq, Eq, Structural)]
pub enum CombatReply {
    /// There is no fight, and none was on.
    Nothing,
    /// The fight that was on is over.
    Cleared,
    /// The answer describes a fight.
    Fight,
}

/// The kind of an answer.
pub open spec fn reply_kind(text: Seq<char>, was_active: bool) -> CombatReply {
    if text == "null"@ || text.len() == 0 {
        if was_active {
            CombatReply::Cleared
        } else {
            CombatReply::Nothing
        }
    } else {
        CombatReply::Fight
    }
}

/// Reads the kind of an answer: `null` and an empty one mean that there is no
/// fight.
pub fn combat_reply(text: &str, was_active: bool) -> (reply: CombatReply)
    ensures
        reply == reply_kind(text@, was_active),
{
    if same_text(text, "null") || text.is_empty() {
        if was_active {
            CombatReply::Cleared
        } else {
            CombatReply::Nothing
        }
    } else {
        CombatReply::Fight
    }
}

/// Path of a player's fight.
pub fn combat_path(player_id: &str) -> (path: String)
    ensures
        path@ == "/combat?player_id="@ + player_id@,
{
    let mut path = String::from_str("/combat?player_id=");
    path.append(player_id);
    path
}

/// What becomes of the charge bars in a frame.
#[derive(Debug, Clone, Copy, PartialEq, Eq, Structural)]
pub struct ChargeStep {
    /// Take the server's charges over and count from there.
    pub anchor: bool,
    /// Empty the bars.
    pub clear: bool,
    /// Let the bars grow at the rates of the fight; else they hold still.
    pub grow: bool,
    /// Difficulty by which the enemy charges.
    pub difficulty: u32,
}

/// The fight goes on and no action waits for its answer.
pub open spec fn is_fighting(combat: CombatUiState) -> bool {
    combat.active && !combat.action_pending && (combat.state matches Some(cs) && cs.fighting)
}

/// Difficulty by which the enemy charges.
pub open spec fn charging_difficulty(combat: CombatUiState) -> u32 {
    match combat.state {
        Some(cs) => cs.difficulty,
        None => 1,
    }
}

/// The state after the answers that came in: a report starts or updates the
/// fight, and the end of the fight takes it away.
pub open spec fn after_poll(
    before: CombatUiState,
    fetched: Option<CombatState>,
    cleared: bool,
) -> CombatUiState {
    let reported = match fetched {
        Some(cs) => CombatUiState { active: true, state: Some(cs), action_pending: false },
        None => before,
    };
    if cleared {
        CombatUiState { active: false, state: None, ..reported }
    } else {
        reported
    }
}

/// Takes in what the server answered since the last frame and tells what
/// becomes of the charge bars.
pub fn poll_combat_state(
    combat: &mut CombatUiState,
    fetched: Option<CombatState>,
    cleared: bool,
) -> (step: ChargeStep)
    ensures
        *final(combat) == after_poll(*old(combat), fetched, cleared),
        step.anchor == (fetched is Some),
        step.clear == cleared,
        step.grow == is_fighting(*final(combat)),
        step.difficulty == charging_difficulty(*final(combat)),
{
    let mut anchor: bool = false;
    if let Some(cs) = fetched {
        combat.state = Some(cs);
        combat.active = true;
        combat.action_pending = false;
        anchor = true;
    }
    if cleared {
        combat.active = false;
        combat.state = None;
    }
    let (fighting, difficulty): (bool, u32) = match &combat.state {
        Some(cs) => (cs.fighting, cs.difficulty),
        None => (false, 1),
    };
    ChargeStep {
        anchor,
        clear: cleared,
        grow: combat.active && !combat.action_pending && fighting,
        difficulty,
    }
}

/// Brings the overlay in line with the fight.
pub fn manage_combat_overlay(combat: &CombatUiState, has_overlay: bool) -> (action: LayerAction)
    ensures
        ({
            let show = combat.active && combat.state is Some;
            action == (if show == has_overlay {
                LayerAction::Keep
            } else if show {
                LayerAction::Spawn
            } else {
                LayerAction::Despawn
            })
        }),
{
    manage_layer(combat.active && combat.state.is_some(), has_overlay, true)
}

/// Hit points out of the most there can be.
pub open spec fn hp_line(hp: int, max: int) -> Seq<char> {
    "HP: "@ + signed_text(hp) + "/"@ + signed_text(max)
}

fn hp_text(hp: i32, max: i32) -> (text: String)
    ensures
        text@ == hp_line(hp as int, max as int),
{
    let mut text = String::from_str("HP: ");
    append_signed(&mut text, hp as i64);
    text.append("/");
    append_signed(&mut text, max as i64);
    text
}

/// Messages one below the other.
pub open spec fn lines_text(messages: Seq<Seq<char>>) -> Seq<char>
    decreases messages.len(),
{
    if messages.len() == 0 {
        Seq::empty()
    } else if messages.len() == 1 {
        messages[0]
    } else {
        lines_text(messages.drop_last()) + "\n"@ + messages.last()
    }
}

/// Messages that the overlay shows: the last four.
pub open spec fn shown_messages(log: Seq<Seq<char>>) -> Seq<Seq<char>> {
    if log.len() <= 4 {
        log
    } else {
        log.skip(log.len() - 4)
    }
}

fn log_text(log: &Vec<String>) -> (text: String)
    ensures
        text@ == lines_text(shown_messages(crate::text::texts(log@))),
{
    let ghost shown = shown_messages(crate::text::texts(log@));
    let start: usize = if log.len() <= 4 {
        0
    } else {
        log.len() - 4
    };
    let mut text = String::new();
    let mut i: usize = start;
    assert(text@ =~= lines_text(shown.take(0)));
    while i < log.len()
        invariant
            start <= i <= log.len(),
            shown.len() == log.len() - start,
            forall|j: int| 0 <= j < shown.len() ==> #[trigger] shown[j] == log@[start + j]@,
            text@ == lines_text(shown.take(i - start)),
        decreases log.len() - i,
    {
        let ghost before = text@;
        let ghost k = i - start;
        proof {
            assert(shown.take(k + 1).drop_last() =~= shown.take(k));
            assert(shown.take(k + 1).last() == log@[i as int]@);
        }
        if i > start {
            text.append("\n");
        }
        text.append(log[i].as_str());
        proof {
            if i > start {
                assert(text@ =~= before + "\n"@ + log@[i as int]@);
            } else {
                assert(text@ =~= log@[i as int]@);
            }
        }
        i = i + 1;
    }
    assert(shown.take(i - start) =~= shown);
    text
}

/// What the overlay says.
#[derive(Debug)]
pub struct CombatTexts {
    pub enemy_name: String,
    pub enemy_hp: String,
    pub player_name: String,
    pub player_hp: String,
    pub log: String,
    pub level_info: String,
    pub description: String,
}

/// Writes what the overlay says about a fight.
pub fn update_combat_ui(cs: &CombatState) -> (texts: CombatTexts)
    ensures
        texts.enemy_name@ == cs.enemy_name@,
        texts.enemy_hp@ == hp_line(cs.enemy_hp as int, cs.enemy_max_hp as int),
        texts.player_name@ == "Lv "@ + decimal_text(cs.player_level as nat) + " Adventurer"@,
        texts.player_hp@ == hp_line(cs.player_hp as int, cs.player_max_hp as int),
        texts.log@ == lines_text(shown_messages(crate::text::texts(cs.turn_log@))),
        texts.level_info@ == "Min Lv "@ + decimal_text(cs.min_level as nat) + " / Rec Lv "@
            + decimal_text(cs.recommended_level as nat),
        texts.description@ == cs.description@,
{
    let mut player_name = String::from_str("Lv ");
    append_decimal(&mut player_name, cs.player_level as u64);
    player_name.append(" Adventurer");
    let mut level_info = String::from_str("Min Lv ");
    append_decimal(&mut level_info, cs.min_level as u64);
    level_info.append(" / Rec Lv ");
    append_decimal(&mut level_info, cs.recommended_level as u64);
    CombatTexts {
        enemy_name: cs.enemy_name.clone(),
        enemy_hp: hp_text(cs.enemy_hp, cs.enemy_max_hp),
        player_name,
        player_hp: hp_text(cs.player_hp, cs.player_max_hp),
        log: log_text(&cs.turn_log),
        level_info,
        description: cs.description.clone(),
    }
}

/// The player runs away.
pub open spec fn flees(combat: CombatUiState, key: bool, button: bool) -> bool {
    (key || button) && !combat.action_pending && (combat.state matches Some(cs) && cs.fighting)
}

/// Whether the player runs away: the key or the button does it, while the
/// fight goes on and no action waits for its answer.
pub fn handle_combat_input(combat: &mut CombatUiState, key: bool, button: bool) -> (flee: bool)
    ensures
        flee == flees(*old(combat), key, button),
        *final(combat) == (CombatUiState {
            action_pending: old(combat).action_pending || flee,
            ..*old(combat)
        }),
{
    let fighting: bool = match &combat.state {
        Some(cs) => cs.fighting,
        None => false,
    };
    if !fighting || combat.action_pending {
        return false;
    }
    if key || button {
        combat.action_pending = true;
        true
    } else {
        false
    }
}

/// One attempt to run away at a time: until the server has answered, neither
/// key nor button sends another.
pub proof fn fleeing_waits_for_the_answer(combat: CombatUiState, key: bool, button: bool)
    requires
        combat.action_pending,
    ensures
        !flees(combat, key, button),
        !is_fighting(combat),
        after_poll(combat, None, false) == combat,
        forall|cs: CombatState| !(#[trigger] after_poll(combat, Some(cs), false)).action_pending,
{
}

/// An answer means a fight unless it is empty or `null`; the others end the
/// fight that was on, if one was.
pub proof fn empty_answers_end_the_fight(text: Seq<char>, was_active: bool)
    ensures
        reply_kind(text, was_active) == CombatReply::Fight <==> text.len() > 0 && text != "null"@,
        text.len() == 0 || text == "null"@ ==> (reply_kind(text, was_active)
            == CombatReply::Cleared <==> was_active),
        text.len() == 0 || text == "null"@ ==> (reply_kind(text, was_active)
            == CombatReply::Nothing <==> !was_active),
{
}

/// A report makes the fight the one reported and ends the wait for an answer;
/// the end of a fight leaves none on, whatever was reported with it; without
/// news nothing changes.
pub proof fn fights_follow_the_reports(before: CombatUiState, cs: CombatState)
    ensures
        ({
            let after = after_poll(before, Some(cs), false);
            after.active && after.state == Some(cs) && !after.action_pending
        }),
        ({
            let after = after_poll(before, Some(cs), true);
            !after.active && after.state is None && !after.action_pending
        }),
        ({
            let after = after_poll(before, None, true);
            !after.active && after.state is None && after.action_pending == before.action_pending
        }),
        after_poll(before, None, false) == before,
        charging_difficulty(after_poll(before, Some(cs), false)) == cs.difficulty,
        charging_difficulty(after_poll(before, None, true)) == 1,
        is_fighting(after_poll(before, Some(cs), false)) <==> cs.fighting,
        !is_fighting(after_poll(before, Some(cs), true)),
{
}

/// The key and the button do the same. They only do it during a fight that
/// goes on, and only while no earlier attempt waits for its answer.
pub proof fn who_may_flee(combat: CombatUiState, key: bool, button: bool)
    ensures
        flees(combat, true, button) == flees(combat, key, true),
        !flees(combat, false, false),
        combat.state is None ==> !flees(combat, key, button),
        combat.state matches Some(cs) && !cs.fighting ==> !flees(combat, key, button),
        is_fighting(combat) && (key || button) ==> flees(combat, key, button),
        flees(combat, key, button) && combat.active ==> is_fighting(combat),
{
}

/// The overlay shows the latest messages, four at most, in the order in which
/// they came.
pub proof fn latest_messages_are_shown(log: Seq<Seq<char>>, message: Seq<char>)
    ensures
        shown_messages(log).len() <= 4,
        log.len() <= 4 ==> shown_messages(log) == log,
        log.len() > 4 ==> shown_messages(log).len() == 4,
        forall|k: int|
            1 <= k <= shown_messages(log).len() ==> shown_messages(log)[shown_messages(log).len()
                - k] == #[trigger] log[log.len() - k],
        shown_messages(log.push(message)).last() == message,
{
}

/// A message goes on a line of its own below the others.
pub proof fn messages_stand_in_lines(messages: Seq<Seq<char>>, message: Seq<char>)
    ensures
        lines_text(seq![message]) == message,
        messages.len() > 0 ==> lines_text(messages.push(message)) == lines_text(messages) + "\n"@
            + message,
        lines_text(Seq::empty()) == Seq::<char>::empty(),
{
    assert(messages.push(message).drop_last() =~= messages);
}

/// The hit points left come first, then the most there can be, with a slash
/// between them.
pub proof fn hit_points_are_told_apart(hp: int, max: int)
    ensures
        ({
            let line = hp_line(hp, max);
            let (left, all) = (signed_text(hp), signed_text(max));
            &&& line.len() == 5 + left.len() + all.len()
            &&& line.subrange(4, 4 + left.len() as int) == left
            &&& line[4 + left.len() as int] == '/'
            &&& line.skip(5 + left.len() as int) == all
        }),
{
    reveal_strlit("HP: ");
    reveal_strlit("/");
    let (left, all) = (signed_text(hp), signed_text(max));
    let line = hp_line(hp, max);
    assert("HP: "@.len() == 4 && "/"@.len() == 1 && "/"@[0] == '/');
    assert(line.subrange(4, 4 + left.len() as int) =~= left);
    assert(line.skip(5 + left.len() as int) =~= all);
}

} // verus!
