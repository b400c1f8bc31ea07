//! A keyboard-driven single-selection menu for text terminals.
//!
//! The library holds the selection engine: the item list, the Browse / Query
//! mode machine driven by key events, the scroll-to-fit layout, fuzzy ranking
//! of items against a query, and the draw instructions for the current state.
//! Reading keys and writing to the terminal are left to the caller.
pub mod item;
pub mod key;
pub mod menu;
pub mod rank;
pub mod render;
pub mod state;
pub mod style;
mod text;

pub use item::Item;
pub use rank::{rank_items, Ranker, MATCH_CHUNK, PARALLEL_THRESHOLD};
pub use key::{KeyCode, KeyEvent, KeyResponse, Modifiers};
pub use menu::Menu;
pub use state::{MenuView, Mode, FULL_HEIGHT};
pub use render::{DrawOp, OpView, Style};
pub use style::{colorize, style_steps, ColorScheme, FontShape, FontStyle, ShapeSet, StyleStep};
