//! The screens of a keyboard-driven Prism Central terminal client, as verified state machines.
//!
//! Every screen owns its cursor, its filter and its input; a key goes in and an action comes
//! out for the application to act on. Nothing here touches the terminal or the network.

pub mod ascii;
pub mod key;
pub mod text;
pub mod catalog;
pub mod palette;
pub mod activity;
pub mod journal;
pub mod confirm;
pub mod mouse;
pub mod run;
pub mod skins;
pub mod ladder;
pub mod contexts;
pub mod menu;
pub mod picker;
pub mod form;
pub mod search;
pub mod settings;
pub mod detail;
pub mod sidebar;
pub mod shell;
pub mod acting;
pub mod table_view;
pub mod poll;
pub mod summary;
pub mod ranking;
pub mod resolve;

pub use contexts::DEFAULT_PORT;
pub use key::Key;
pub use mouse::{Mouse, MouseKind};
