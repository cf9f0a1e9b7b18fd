//! Keyboard and mouse input: keys, modifiers, bindings of keys to
//! actions, and the input state.

pub mod keys;
pub mod binding;
pub mod default_bindings;
pub mod mapper;
pub mod state;
