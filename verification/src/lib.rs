//! Terminal emulation core: cell grid with scrollback, cursor, attributes,
//! the escape-sequence state machine, keyboard encoding, colour palette,
//! selection, search and link detection.

pub mod action;
pub mod attr;
pub mod cell;
pub mod cursor;
pub mod grid;
pub mod model;
pub mod term;
pub mod text;
pub mod selection;
pub mod palette;
pub mod keymap;
pub mod search;
pub mod links;
pub mod frontend;
pub mod laws;
pub mod view;

pub use action::Action;
pub use attr::{Attr, Color};
pub use cell::Cell;
pub use cursor::{Cursor, CursorShape};
pub use grid::Grid;
pub use keymap::encode_key;
pub use palette::{color_to_css, indexed_to_rgb, Theme};
pub use term::{Modes, Terminal};
