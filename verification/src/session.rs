//! The game session, the server's address, and the cursor over the interface.

use vstd::prelude::*;
use vstd::string::StringExecFns;

verus! {

/// Game session info set during the title screen.
#[derive(Debug, Clone)]
pub struct GameSession {
    pub game_id: String,
    pub player_id: String,
    pub player_name: String,
    pub join_code: String,
    pub champion: String,
    pub map_seed: u64,
    pub map_width: u32,
    pub map_height: u32,
}

impl Default for GameSession {
    fn default() -> (session: GameSession)
        ensures
            session.game_id@.len() == 0,
            session.player_id@.len() == 0,
            session.player_name@.len() == 0,
            session.join_code@.len() == 0,
            session.champion@.len() == 0,
            session.map_seed == 0,
            session.map_width == 0,
            session.map_height == 0,
    {
        GameSession {
            game_id: String::new(),
            player_id: String::new(),
            player_name: String::new(),
            join_code: String::new(),
            champion: String::new(),
            map_seed: 0,
            map_width: 0,
            map_height: 0,
        }
    }
}

/// Address of a path on the server: that of the page's origin, else that of
/// the development server.
pub fn api_url(origin: Option<&str>, path: &str) -> (url: String)
    ensures
        url@ == (match origin {
            Some(base) => base@,
            None => "http://localhost:3001"@,
        }) + path@,
{
    let mut url = String::from_str(
        match origin {
            Some(base) => base,
            None => "http://localhost:3001",
        },
    );
    url.append(path);
    url
}

/// How the mouse relates to an element of the interface.
#[derive(Debug, Clone, Copy, PartialEq, Eq, Structural)]
pub enum Hover {
    Pressed,
    Hovered,
    Away,
}

/// The mouse is over an element.
pub open spec fn is_over(hover: Hover) -> bool {
    hover != Hover::Away
}

/// Whether the mouse is over any element of the interface, so that clicks are
/// not meant for the map.
pub fn detect_ui_hover(elements: &Vec<Hover>) -> (hovered: bool)
    ensures
        hovered == exists|i: int| 0 <= i < elements.len() && is_over(#[trigger] elements@[i]),
{
    let mut i: usize = 0;
    while i < elements.len()
        invariant
            i <= elements.len(),
            forall|j: int| 0 <= j < i ==> !is_over(#[trigger] elements@[j]),
        decreases elements.len() - i,
    {
        if elements[i] != Hover::Away {
            return true;
        }
        i = i + 1;
    }
    false
}

/// The cursor to set when the mouse comes over the interface or leaves it;
/// `None` while nothing changes.
pub fn update_cursor(hovering: bool, last_cursor: &mut bool) -> (cursor: Option<&'static str>)
    ensures
        *final(last_cursor) == hovering,
        match cursor {
            Some(name) => {
                &&& hovering != *old(last_cursor)
                &&& name@ == (if hovering {
                    "pointer"@
                } else {
                    "default"@
                })
            },
            None => hovering == *old(last_cursor),
        },
{
    if hovering == *last_cursor {
        return None;
    }
    *last_cursor = hovering;
    if hovering {
        Some("pointer")
    } else {
        Some("default")
    }
}

/// An element counts as under the mouse whether it is pressed or not.
pub proof fn pressed_elements_are_under_the_mouse()
    ensures
        is_over(Hover::Pressed),
        is_over(Hover::Hovered),
        !is_over(Hover::Away),
{
}

} // verus!
