use vstd::prelude::*;

verus! {

/// A document as TOML hands it over, before validation: every field as
/// written, integers still signed and unchecked.
#[derive(Debug, Clone)]
pub struct RawProject {
    pub schema_version: u32,
    pub asset: RawAsset,
    pub layout: Option<RawLayout>,
    pub styles: Vec<RawStyle>,
    pub frames: Vec<RawFrame>,
}

#[derive(Debug, Clone)]
pub struct RawAsset {
    pub name: String,
    pub kind: String,
    pub width: i64,
    pub height: i64,
    pub default_frame_duration_ms: i64,
    pub loop_animation: bool,
}

#[derive(Debug, Clone)]
pub struct RawLayout {
    pub min_width: Option<i64>,
    pub min_height: Option<i64>,
    pub anchor: Option<String>,
    pub overflow: Option<String>,
}

#[derive(Debug, Clone)]
pub struct RawStyle {
    pub id: String,
    pub fg: String,
    pub bg: Option<String>,
    pub attrs: Vec<String>,
    pub role: Option<String>,
}

#[derive(Debug, Clone)]
pub struct RawFrame {
    pub id: Option<String>,
    pub duration_ms: Option<i64>,
    pub runs: Vec<RawRun>,
    pub cells: Vec<RawCell>,
}

/// A row fragment: `text` painted from `(x, y)` rightward in one style.
#[derive(Debug, Clone)]
pub struct RawRun {
    pub x: i64,
    pub y: i64,
    pub text: String,
    pub style: String,
}

/// One explicit cell.
#[derive(Debug, Clone)]
pub struct RawCell {
    pub x: i64,
    pub y: i64,
    pub ch: String,
    pub style: String,
}

/// A document in the canonical form a writer emits, field by field in save
/// order.
#[derive(Debug, Clone)]
pub struct OutProject {
    pub schema_version: u32,
    pub asset: OutAsset,
    pub layout: OutLayout,
    pub styles: Vec<OutStyle>,
    pub frames: Vec<OutFrame>,
}

#[derive(Debug, Clone)]
pub struct OutAsset {
    pub name: String,
    pub kind: String,
    pub width: u16,
    pub height: u16,
    pub default_frame_duration_ms: u64,
    pub loop_animation: bool,
}

#[derive(Debug, Clone)]
pub struct OutLayout {
    pub min_width: u16,
    pub min_height: u16,
    pub anchor: String,
    pub overflow: String,
}

/// A style as written: `attrs` is left out when empty, `role` when absent.
#[derive(Debug, Clone)]
pub struct OutStyle {
    pub id: String,
    pub fg: String,
    pub bg: String,
    pub attrs: Vec<String>,
    pub role: Option<String>,
}

/// A frame as written: `duration_ms` only where it differs from the asset
/// default; empty `runs` and `cells` are left out.
#[derive(Debug, Clone)]
pub struct OutFrame {
    pub id: Option<String>,
    pub duration_ms: Option<u64>,
    pub runs: Vec<OutRun>,
    pub cells: Vec<OutCell>,
}

#[derive(Debug, Clone)]
pub struct OutRun {
    pub x: u16,
    pub y: u16,
    pub text: String,
    pub style: String,
}

#[derive(Debug, Clone)]
pub struct OutCell {
    pub x: u16,
    pub y: u16,
    pub ch: String,
    pub style: String,
}

} // verus!
