use std::collections::BTreeMap;
use vstd::prelude::*;

use crate::text::{chars_equal, chars_of, push_char};

verus! {

/// The file schema version this library reads and writes.
pub const SCHEMA_VERSION: u32 = 1;
/// Frame duration given to new images and their first frame, in milliseconds.
pub const DEFAULT_FRAME_DURATION_MS: u64 = 250;
/// Largest accepted canvas width, in cells.
pub const MAX_WIDTH: u16 = 500;
/// Largest accepted canvas height, in cells.
pub const MAX_HEIGHT: u16 = 300;
/// Largest accepted canvas area, in cells.
pub const MAX_AREA_PER_FRAME: u64 = 150_000;
/// Largest accepted number of frames.
pub const MAX_FRAMES: usize = 1_000;
/// Largest accepted number of styles.
pub const MAX_STYLES: usize = 256;
/// Largest accepted number of runs in one frame.
pub const MAX_RUNS_PER_FRAME: usize = 10_000;
/// Largest accepted number of explicit cells in one frame.
pub const MAX_EXPLICIT_CELLS_PER_FRAME: usize = 150_000;
/// Largest accepted number of painted cells over all frames after composition.
pub const MAX_EXPANDED_CELLS_ALL_FRAMES: usize = 5_000_000;

/// A cell position as `(y, x)`: maps keyed by it iterate row by row.
pub type CellKey = (u16, u16);
/// The painted cells of a frame, keyed by `(y, x)`; absent keys are transparent.
pub type CellMap = BTreeMap<CellKey, PaintedCell>;

/// A whole document: one asset with its layout, styles and frames.
#[derive(Debug, Clone, PartialEq, Eq)]
pub struct Project {
    pub asset: Asset,
    pub layout: Layout,
    pub styles: Vec<TerminalStyle>,
    pub frames: Vec<Frame>,
}

#[derive(Debug, Clone, PartialEq, Eq)]
pub struct Asset {
    pub name: String,
    pub kind: AssetKind,
    pub width: u16,
    pub height: u16,
    pub default_frame_duration_ms: u64,
    pub loop_animation: bool,
}

#[derive(Debug, Clone, Copy, PartialEq, Eq, Structural)]
pub enum AssetKind {
    Image,
    Animation,
}

#[derive(Debug, Clone, PartialEq, Eq, Structural)]
pub struct Layout {
    pub min_width: u16,
    pub min_height: u16,
    pub anchor: Anchor,
    pub overflow: Overflow,
}

#[derive(Debug, Clone, Copy, PartialEq, Eq, Structural)]
pub enum Anchor {
    TopLeft,
    TopCenter,
    TopRight,
    CenterLeft,
    Center,
    CenterRight,
    BottomLeft,
    BottomCenter,
    BottomRight,
}

#[derive(Debug, Clone, Copy, PartialEq, Eq, Structural)]
pub enum Overflow {
    Clip,
    Hide,
}

#[derive(Debug, Clone, PartialEq, Eq)]
pub struct TerminalStyle {
    pub id: String,
    pub fg: Color,
    pub bg: Option<Color>,
    pub attrs: Vec<TextAttr>,
    pub role: Option<String>,
}

#[derive(Debug, Clone, Copy, PartialEq, Eq, Structural)]
pub enum TextAttr {
    Bold,
    Dim,
    Italic,
    Underline,
    Reverse,
}

#[derive(Debug, Clone, Copy, PartialEq, Eq, Structural)]
pub struct Color {
    pub r: u8,
    pub g: u8,
    pub b: u8,
}

#[derive(Debug, Clone, PartialEq, Eq)]
pub struct Frame {
    pub id: Option<String>,
    pub duration_ms: u64,
    pub cells: CellMap,
}

#[derive(Debug, Clone, Copy, PartialEq, Eq, Structural)]
pub struct PaintedCell {
    pub ch: char,
    pub style_index: usize,
}

/// The painted cell showing `ch` in the style at `style_index`.
pub open spec fn painted(ch: char, style_index: usize) -> PaintedCell {
    PaintedCell { ch, style_index }
}

/// A validated project with the warnings its validation produced.
#[derive(Debug, Clone, PartialEq, Eq)]
pub struct LoadedProject {
    pub project: Project,
    pub warnings: Vec<ValidationMessage>,
}

#[derive(Debug, Clone, PartialEq, Eq)]
pub struct ValidationReport {
    pub errors: Vec<ValidationMessage>,
    pub warnings: Vec<ValidationMessage>,
}

impl Default for ValidationReport {
    fn default() -> (r: Self)
        ensures
            r.errors@.len() == 0,
            r.warnings@.len() == 0,
    {
        ValidationReport { errors: Vec::new(), warnings: Vec::new() }
    }
}

#[derive(Debug, Clone, PartialEq, Eq)]
pub struct ValidationMessage {
    pub location: String,
    pub message: String,
}

/// The style every new image starts with.
pub open spec fn spec_default_style_fg() -> Color {
    Color { r: 238, g: 238, b: 238 }
}

impl Project {
    /// A one-frame image of the given size with the default style and layout.
    pub fn new_image(name: &str, width: u16, height: u16) -> (p: Self)
        ensures
            p.asset.name@ == name@,
            p.asset.kind == AssetKind::Image,
            p.asset.width == width,
            p.asset.height == height,
            p.asset.default_frame_duration_ms == DEFAULT_FRAME_DURATION_MS,
            p.asset.loop_animation,
            p.layout == (Layout {
                min_width: width,
                min_height: height,
                anchor: Anchor::Center,
                overflow: Overflow::Clip,
            }),
            p.styles@.len() == 1,
            p.styles@[0].id@ == "default"@,
            p.styles@[0].fg == spec_default_style_fg(),
            p.styles@[0].bg is None,
            p.styles@[0].attrs@.len() == 0,
            p.styles@[0].role matches Some(role) && role@ == "default"@,
            p.frames@.len() == 1,
            p.frames@[0].id matches Some(id) && id@ == "frame-1"@,
            p.frames@[0].duration_ms == DEFAULT_FRAME_DURATION_MS,
            p.frames@[0].cells@ == Map::<CellKey, PaintedCell>::empty(),
    {
        let mut styles = Vec::new();
        styles.push(TerminalStyle::default_style());
        let mut frames = Vec::new();
        frames.push(Frame {
            id: Some("frame-1".to_string()),
            duration_ms: DEFAULT_FRAME_DURATION_MS,
            cells: BTreeMap::new(),
        });
        Project {
            asset: Asset {
                name: name.to_string(),
                kind: AssetKind::Image,
                width,
                height,
                default_frame_duration_ms: DEFAULT_FRAME_DURATION_MS,
                loop_animation: true,
            },
            layout: Layout {
                min_width: width,
                min_height: height,
                anchor: Anchor::Center,
                overflow: Overflow::Clip,
            },
            styles,
            frames,
        }
    }

    /// The first frame.
    pub fn first_frame(&self) -> (f: &Frame)
        requires
            self.frames@.len() > 0,
        ensures
            *f == self.frames@[0],
    {
        &self.frames[0]
    }

    /// The first frame, for editing.
    pub fn first_frame_mut(&mut self) -> (f: &mut Frame)
        requires
            old(self).frames@.len() > 0,
        ensures
            *f == old(self).frames@[0],
            final(self).asset == old(self).asset,
            final(self).layout == old(self).layout,
            final(self).styles == old(self).styles,
            final(self).frames@ == old(self).frames@.update(0, *final(f)),
    {
        &mut self.frames[0]
    }
}

impl TerminalStyle {
    /// The light-gray, transparent-background style named `default`.
    pub fn default_style() -> (s: Self)
        ensures
            s.id@ == "default"@,
            s.fg == spec_default_style_fg(),
            s.bg is None,
            s.attrs@.len() == 0,
            s.role matches Some(role) && role@ == "default"@,
    {
        TerminalStyle {
            id: "default".to_string(),
            fg: Color { r: 238, g: 238, b: 238 },
            bg: None,
            attrs: Vec::new(),
            role: Some("default".to_string()),
        }
    }
}

/// The value of a hexadecimal digit of either case.
pub open spec fn hex_digit_value(c: char) -> Option<u8> {
    if '0' <= c && c <= '9' {
        Some((c as u32 - '0' as u32) as u8)
    } else if 'a' <= c && c <= 'f' {
        Some((c as u32 - 'a' as u32 + 10) as u8)
    } else if 'A' <= c && c <= 'F' {
        Some((c as u32 - 'A' as u32 + 10) as u8)
    } else {
        None
    }
}

/// The upper-case hexadecimal digit for `d < 16`.
pub open spec fn hex_digit_upper(d: u8) -> char {
    if d < 10 {
        (d + '0' as u32) as char
    } else {
        (d - 10 + 'A' as u32) as char
    }
}

/// The byte written by the two hexadecimal digits `hi`, `lo`.
pub open spec fn hex_pair(hi: char, lo: char) -> u8 {
    (hex_digit_value(hi).unwrap() * 16 + hex_digit_value(lo).unwrap()) as u8
}

/// The color that `#RRGGBB` text denotes, with six hexadecimal digits of
/// either case; `None` for any other text.
pub open spec fn spec_parse_hex(s: Seq<char>) -> Option<Color> {
    if s.len() == 7 && s[0] == '#' && (forall|i: int| 1 <= i < 7 ==> (#[trigger] hex_digit_value(s[i])) is Some) {
        Some(Color { r: hex_pair(s[1], s[2]), g: hex_pair(s[3], s[4]), b: hex_pair(s[5], s[6]) })
    } else {
        None
    }
}

/// `#RRGGBB` with upper-case digits.
pub open spec fn spec_to_hex(c: Color) -> Seq<char> {
    seq![
        '#',
        hex_digit_upper(c.r / 16),
        hex_digit_upper(c.r % 16),
        hex_digit_upper(c.g / 16),
        hex_digit_upper(c.g % 16),
        hex_digit_upper(c.b / 16),
        hex_digit_upper(c.b % 16),
    ]
}

fn hex_value(c: char) -> (r: Option<u8>)
    ensures
        r == hex_digit_value(c),
{
    if '0' <= c && c <= '9' {
        Some((c as u32 - '0' as u32) as u8)
    } else if 'a' <= c && c <= 'f' {
        Some((c as u32 - 'a' as u32 + 10) as u8)
    } else if 'A' <= c && c <= 'F' {
        Some((c as u32 - 'A' as u32 + 10) as u8)
    } else {
        None
    }
}

fn hex_upper(d: u8) -> (r: char)
    requires
        d < 16,
    ensures
        r == hex_digit_upper(d),
{
    if d < 10 {
        ((d as u32) + ('0' as u32)) as u8 as char
    } else {
        ((d as u32) - 10 + ('A' as u32)) as u8 as char
    }
}

impl Color {
    /// Reads `#RRGGBB` (either case); anything else is `None`.
    pub fn parse_hex(value: &str) -> (r: Option<Self>)
        ensures
            r == spec_parse_hex(value@),
    {
        let s = chars_of(value);
        if s.len() != 7 || s[0] != '#' {
            return None;
        }
        let mut digits: Vec<u8> = Vec::new();
        let mut i: usize = 1;
        while i < 7
            invariant
                s@ == value@,
                s@.len() == 7,
                s@[0] == '#',
                1 <= i <= 7,
                digits@.len() == i - 1,
                forall|j: int| 1 <= j < i ==> (#[trigger] hex_digit_value(s@[j])) == Some(digits@[j - 1]),
            decreases 7 - i,
        {
            let c = s[i];
            let d = hex_value(c);
            assert(c == s@[i as int]);
            match d {
                Some(d) => digits.push(d),
                None => {
                    assert(hex_digit_value(s@[i as int]) is None);
                    assert(!(forall|j: int| 1 <= j < 7 ==> (#[trigger] hex_digit_value(value@[j])) is Some));
                    return None;
                },
            }
            i += 1;
        }
        assert(forall|j: int| 0 <= j < 6 ==> digits@[j] < 16) by {
            assert forall|j: int| 0 <= j < 6 implies digits@[j] < 16 by {
                assert(hex_digit_value(s@[j + 1]) == Some(digits@[j]));
            }
        }
        let r = digits[0] * 16 + digits[1];
        let g = digits[2] * 16 + digits[3];
        let b = digits[4] * 16 + digits[5];
        proof {
            assert(hex_digit_value(s@[1]) == Some(digits@[0]));
            assert(hex_digit_value(s@[2]) == Some(digits@[1]));
            assert(hex_digit_value(s@[3]) == Some(digits@[2]));
            assert(hex_digit_value(s@[4]) == Some(digits@[3]));
            assert(hex_digit_value(s@[5]) == Some(digits@[4]));
            assert(hex_digit_value(s@[6]) == Some(digits@[5]));
        }
        Some(Color { r, g, b })
    }

    /// `#RRGGBB` with upper-case hexadecimal digits.
    pub fn to_hex(self) -> (r: String)
        ensures
            r@ == spec_to_hex(self),
    {
        let mut s = String::new();
        push_char(&mut s, '#');
        push_char(&mut s, hex_upper(self.r / 16));
        push_char(&mut s, hex_upper(self.r % 16));
        push_char(&mut s, hex_upper(self.g / 16));
        push_char(&mut s, hex_upper(self.g % 16));
        push_char(&mut s, hex_upper(self.b / 16));
        push_char(&mut s, hex_upper(self.b % 16));
        s
    }
}

/// Whether a string equals the given literal.
fn is_name(value: &Vec<char>, name: &str) -> (r: bool)
    ensures
        r == (value@ == name@),
{
    let expected = chars_of(name);
    chars_equal(value, &expected)
}

/// The file-format name of each anchor.
pub open spec fn anchor_name(a: Anchor) -> Seq<char> {
    match a {
        Anchor::TopLeft => "top_left"@,
        Anchor::TopCenter => "top_center"@,
        Anchor::TopRight => "top_right"@,
        Anchor::CenterLeft => "center_left"@,
        Anchor::Center => "center"@,
        Anchor::CenterRight => "center_right"@,
        Anchor::BottomLeft => "bottom_left"@,
        Anchor::BottomCenter => "bottom_center"@,
        Anchor::BottomRight => "bottom_right"@,
    }
}

/// The anchor a file-format name denotes, if any.
pub open spec fn anchor_from_name(s: Seq<char>) -> Option<Anchor> {
    if s == "top_left"@ {
        Some(Anchor::TopLeft)
    } else if s == "top_center"@ {
        Some(Anchor::TopCenter)
    } else if s == "top_right"@ {
        Some(Anchor::TopRight)
    } else if s == "center_left"@ {
        Some(Anchor::CenterLeft)
    } else if s == "center"@ {
        Some(Anchor::Center)
    } else if s == "center_right"@ {
        Some(Anchor::CenterRight)
    } else if s == "bottom_left"@ {
        Some(Anchor::BottomLeft)
    } else if s == "bottom_center"@ {
        Some(Anchor::BottomCenter)
    } else if s == "bottom_right"@ {
        Some(Anchor::BottomRight)
    } else {
        None
    }
}

impl Anchor {
    /// The anchor a file-format name denotes, if any.
    pub fn parse(value: &str) -> (r: Option<Self>)
        ensures
            r == anchor_from_name(value@),
    {
        let v = chars_of(value);
        if is_name(&v, "top_left") {
            Some(Anchor::TopLeft)
        } else if is_name(&v, "top_center") {
            Some(Anchor::TopCenter)
        } else if is_name(&v, "top_right") {
            Some(Anchor::TopRight)
        } else if is_name(&v, "center_left") {
            Some(Anchor::CenterLeft)
        } else if is_name(&v, "center") {
            Some(Anchor::Center)
        } else if is_name(&v, "center_right") {
            Some(Anchor::CenterRight)
        } else if is_name(&v, "bottom_left") {
            Some(Anchor::BottomLeft)
        } else if is_name(&v, "bottom_center") {
            Some(Anchor::BottomCenter)
        } else if is_name(&v, "bottom_right") {
            Some(Anchor::BottomRight)
        } else {
            None
        }
    }

    /// The file-format name of this anchor.
    pub fn as_str(self) -> (r: &'static str)
        ensures
            r@ == anchor_name(self),
    {
        match self {
            Anchor::TopLeft => "top_left",
            Anchor::TopCenter => "top_center",
            Anchor::TopRight => "top_right",
            Anchor::CenterLeft => "center_left",
            Anchor::Center => "center",
            Anchor::CenterRight => "center_right",
            Anchor::BottomLeft => "bottom_left",
            Anchor::BottomCenter => "bottom_center",
            Anchor::BottomRight => "bottom_right",
        }
    }
}

/// The file-format name of each overflow mode.
pub open spec fn overflow_name(o: Overflow) -> Seq<char> {
    match o {
        Overflow::Clip => "clip"@,
        Overflow::Hide => "hide"@,
    }
}

/// The overflow mode a file-format name denotes, if any.
pub open spec fn overflow_from_name(s: Seq<char>) -> Option<Overflow> {
    if s == "clip"@ {
        Some(Overflow::Clip)
    } else if s == "hide"@ {
        Some(Overflow::Hide)
    } else {
        None
    }
}

impl Overflow {
    /// The overflow mode a file-format name denotes, if any.
    pub fn parse(value: &str) -> (r: Option<Self>)
        ensures
            r == overflow_from_name(value@),
    {
        let v = chars_of(value);
        if is_name(&v, "clip") {
            Some(Overflow::Clip)
        } else if is_name(&v, "hide") {
            Some(Overflow::Hide)
        } else {
            None
        }
    }

    /// The file-format name of this overflow mode.
    pub fn as_str(self) -> (r: &'static str)
        ensures
            r@ == overflow_name(self),
    {
        match self {
            Overflow::Clip => "clip",
            Overflow::Hide => "hide",
        }
    }
}

/// The file-format name of each text attribute.
pub open spec fn attr_name(a: TextAttr) -> Seq<char> {
    match a {
        TextAttr::Bold => "bold"@,
        TextAttr::Dim => "dim"@,
        TextAttr::Italic => "italic"@,
        TextAttr::Underline => "underline"@,
        TextAttr::Reverse => "reverse"@,
    }
}

/// The text attribute a file-format name denotes, if any.
pub open spec fn attr_from_name(s: Seq<char>) -> Option<TextAttr> {
    if s == "bold"@ {
        Some(TextAttr::Bold)
    } else if s == "dim"@ {
        Some(TextAttr::Dim)
    } else if s == "italic"@ {
        Some(TextAttr::Italic)
    } else if s == "underline"@ {
        Some(TextAttr::Underline)
    } else if s == "reverse"@ {
        Some(TextAttr::Reverse)
    } else {
        None
    }
}

impl TextAttr {
    /// The text attribute a file-format name denotes, if any.
    pub fn parse(value: &str) -> (r: Option<Self>)
        ensures
            r == attr_from_name(value@),
    {
        let v = chars_of(value);
        if is_name(&v, "bold") {
            Some(TextAttr::Bold)
        } else if is_name(&v, "dim") {
            Some(TextAttr::Dim)
        } else if is_name(&v, "italic") {
            Some(TextAttr::Italic)
        } else if is_name(&v, "underline") {
            Some(TextAttr::Underline)
        } else if is_name(&v, "reverse") {
            Some(TextAttr::Reverse)
        } else {
            None
        }
    }

    /// The file-format name of this attribute.
    pub fn as_str(self) -> (r: &'static str)
        ensures
            r@ == attr_name(self),
    {
        match self {
            TextAttr::Bold => "bold",
            TextAttr::Dim => "dim",
            TextAttr::Italic => "italic",
            TextAttr::Underline => "underline",
            TextAttr::Reverse => "reverse",
        }
    }
}

/// The file-format name of each asset kind.
pub open spec fn kind_name(k: AssetKind) -> Seq<char> {
    match k {
        AssetKind::Image => "image"@,
        AssetKind::Animation => "animation"@,
    }
}

/// The asset kind a file-format name denotes, if any.
pub open spec fn kind_from_name(s: Seq<char>) -> Option<AssetKind> {
    if s == "image"@ {
        Some(AssetKind::Image)
    } else if s == "animation"@ {
        Some(AssetKind::Animation)
    } else {
        None
    }
}

impl AssetKind {
    /// The asset kind a file-format name denotes, if any.
    pub fn parse(value: &str) -> (r: Option<Self>)
        ensures
            r == kind_from_name(value@),
    {
        let v = chars_of(value);
        if is_name(&v, "image") {
            Some(AssetKind::Image)
        } else if is_name(&v, "animation") {
            Some(AssetKind::Animation)
        } else {
            None
        }
    }

    /// The file-format name of this asset kind.
    pub fn as_str(self) -> (r: &'static str)
        ensures
            r@ == kind_name(self),
    {
        match self {
            AssetKind::Image => "image",
            AssetKind::Animation => "animation",
        }
    }
}

/// Each name parses back to what it names.
pub proof fn lemma_names_parse_back()
    ensures
        forall|a: Anchor| #[trigger] anchor_from_name(anchor_name(a)) == Some(a),
        forall|o: Overflow| #[trigger] overflow_from_name(overflow_name(o)) == Some(o),
        forall|t: TextAttr| #[trigger] attr_from_name(attr_name(t)) == Some(t),
        forall|k: AssetKind| #[trigger] kind_from_name(kind_name(k)) == Some(k),
{
    reveal_strlit("top_left");
    reveal_strlit("top_center");
    reveal_strlit("top_right");
    reveal_strlit("center_left");
    reveal_strlit("center");
    reveal_strlit("center_right");
    reveal_strlit("bottom_left");
    reveal_strlit("bottom_center");
    reveal_strlit("bottom_right");
    reveal_strlit("clip");
    reveal_strlit("hide");
    reveal_strlit("bold");
    reveal_strlit("dim");
    reveal_strlit("italic");
    reveal_strlit("underline");
    reveal_strlit("reverse");
    reveal_strlit("image");
    reveal_strlit("animation");
    assert("center_left"@[0] != "bottom_left"@[0]);
    assert("center_right"@[0] != "bottom_right"@[0]);
    assert("clip"@[0] != "hide"@[0]);
    assert forall|a: Anchor| #[trigger] anchor_from_name(anchor_name(a)) == Some(a) by {
        assert("top_left"@.len() == 8);
        assert("top_center"@.len() == 10);
        assert("top_right"@.len() == 9);
        assert("center_left"@.len() == 11);
        assert("center"@.len() == 6);
        assert("center_right"@.len() == 12);
        assert("bottom_left"@.len() == 11);
        assert("bottom_center"@.len() == 13);
        assert("bottom_right"@.len() == 12);
    }
    assert forall|o: Overflow| #[trigger] overflow_from_name(overflow_name(o)) == Some(o) by {
        assert("clip"@ != "hide"@);
    }
    assert forall|t: TextAttr| #[trigger] attr_from_name(attr_name(t)) == Some(t) by {
        assert("bold"@.len() == 4);
        assert("dim"@.len() == 3);
        assert("italic"@.len() == 6);
        assert("underline"@.len() == 9);
        assert("reverse"@.len() == 7);
    }
    assert forall|k: AssetKind| #[trigger] kind_from_name(kind_name(k)) == Some(k) by {
        assert("image"@.len() == 5);
        assert("animation"@.len() == 9);
    }
}

} // verus!
