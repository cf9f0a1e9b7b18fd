//! Verified core of a modal text editor frontend for xi-style cores:
//! line caches fed by core updates, key bindings, command parsing,
//! undo bookkeeping and the integer geometry of the renderer.

pub mod kinds;
pub mod selection;
pub mod actions;
pub mod text;
pub mod line_offset;
pub mod movement;
pub mod view;
pub mod event_context;
pub mod render;
pub mod utf16;
pub mod rpc;
pub mod editor;
pub mod annotations;
pub mod client;
pub mod frontend;

pub use kinds::{Mode, Motion, Quantity};
