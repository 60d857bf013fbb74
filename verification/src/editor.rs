//! The canvas editor: screen geometry, palettes, the edit history and the
//! editor state machine that turns key and mouse events into edits.

pub mod geometry;
pub mod controls;
pub mod palette;
pub mod history;
pub mod state;
pub mod edits;
pub mod selection;
pub mod tools;
pub mod naming;
pub mod styles;
pub mod frames;
pub mod dimensions;
pub mod actions;
pub mod input;
pub mod commit;
pub mod mouse;
pub mod view;
pub mod sidebar;
pub mod screens;
pub mod undoing;
