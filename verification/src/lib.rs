//! Game logic of the walking-quest client.

pub mod adventure_menu;
pub mod ambient;
pub mod boon_picker;
pub mod combat;
pub mod daynight;
pub mod dialogue;
pub mod entities;
pub mod hud;
pub mod items;
pub mod json;
pub mod music;
pub mod player;
pub mod reconcile;
pub mod request;
pub mod scan;
pub mod session;
pub mod sfx;
pub mod supabase;
pub mod terrain;
pub mod text;
pub mod title;
pub mod travel_menu;
pub mod version;
