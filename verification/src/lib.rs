//! tmux-expose: a Mission Control-style picker for tmux sessions. Sessions
//! are shown as a grid of cards with live previews; the picker filters them
//! with a fuzzy search, zooms into one session to show its windows, and
//! switches the tmux client to the chosen session or window.
//!
//! The modules hold the picker's logic with its specifications: the state and
//! its operations (`model`), key and mouse handling (`input`), reading tmux's
//! output (`tmux`), the card grid, styles and footer (`ui`, `style`, `screen`),
//! the main loop's decisions (`control`), and properties that relate several
//! operations (`properties`).
use vstd::prelude::*;

pub mod text;
pub mod model;
pub mod tmux;
pub mod input;
pub mod style;
pub mod ui;
pub mod control;
pub mod properties;
pub mod screen;
pub mod options;

verus! {

} // verus!
