//! The frontend: caches of the lines the core renders, key bindings and
//! input state, command parsing and the editing widgets' state.

pub mod linecache;
pub mod messages;
pub mod editor;
pub mod events;
