//! Tokotchi: a terminal pet that levels up off the tokens spent in coding-assistant sessions.
//! This crate holds the pet's verified model: level curve, evolution stages, counting
//! modes, the per-session token ledger, clip parsing and frame selection, the care streak,
//! per-mode economies and the character-cell screen buffer.

pub mod anim;
pub mod card;
pub mod care;
pub mod ledger;
pub mod mode;
pub mod model;
pub mod particles;
pub mod scene;
pub mod screen;
pub mod state;
pub mod statusline;
pub mod text;
pub mod ui;
