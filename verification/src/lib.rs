//! Terminal-cell art: the `.tanim.toml` document model, its validation and
//! export rules, and the editing operations of the canvas editor.

pub mod ansi;
pub mod editor;
pub mod error;
pub mod export;
pub mod model;
pub mod order;
pub mod raw;
pub mod roundtrip;
pub mod text;
pub mod unicode;
pub mod validate;
