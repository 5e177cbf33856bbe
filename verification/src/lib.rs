//! Keyboard-navigable nested menus described as data, with the navigation
//! engine written as a verified state machine.

pub mod engine;
pub mod frame;
pub mod key;
pub mod laws;
pub mod menu;
pub mod text;
pub mod value;

pub use engine::{Input, Navigator, Phase, Step};
pub use frame::{Span, Style};
pub use key::{Key, KeyPress};
pub use menu::{Item, Kind, Menu};
pub use value::{Outcome, Reply, Selection, Value};
