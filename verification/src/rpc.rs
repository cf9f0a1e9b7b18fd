//! Message vocabulary shared between the frontend and the core: actions,
//! modes, motions, quantities, annotations, find state and themes.

pub mod action;
pub mod annotations;
pub mod find;
pub mod mode;
pub mod motion;
pub mod quantity;
pub mod theme;

pub use action::{Action, ActionTarget, MotionQuantity, PluginAction, PluginId};
pub use annotations::{Annotation, AnnotationRange, AnnotationType};
pub use find::{FindStatus, Query, ReplaceStatus, Status};
pub use mode::Mode;
pub use motion::Motion;
pub use quantity::Quantity;
pub use theme::{Colour, Style, Theme};
