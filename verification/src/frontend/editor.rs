//! The editing view of the frontend: its line cache, modes, motions,
//! actions and commands.

pub mod linecache;
pub mod commands;
pub mod action;
pub mod annotations;
pub mod mode;
pub mod motion;
pub mod view_plan;
pub mod ui;
pub mod xi_thread;
