//! The state of the editing view's widgets.

pub mod editable_text;
pub mod status;
pub mod text;
