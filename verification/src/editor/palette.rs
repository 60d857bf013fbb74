use vstd::prelude::*;

use crate::model::{attr_name, Color, TextAttr};
use crate::text::{char_debug_string, push_char, push_str};

verus! {

/// The recent custom colors kept at most.
pub const MAX_RECENT_COLORS: usize = 24;
/// The stamps kept at most.
pub const MAX_STAMPS: usize = 12;
/// Columns of the expanded color picker.
pub const EXPANDED_COLOR_COLUMNS: u16 = 12;
/// Hues of the expanded color picker.
pub const EXPANDED_HUE_COUNT: usize = 12;
/// Tones of each hue in the expanded color picker.
pub const EXPANDED_TONE_COUNT: usize = 16;
/// Neutral colors after the hues in the expanded color picker.
pub const EXPANDED_NEUTRAL_COUNT: usize = 36;
/// All colors of the expanded color picker.
pub const MORE_COLOR_COUNT: usize = 228;
/// Screen cells per color slot.
pub const COLOR_SLOT_WIDTH: u16 = 4;
/// Screen cells of a color swatch.
pub const COLOR_SWATCH_WIDTH: u16 = 2;
/// Screen cells per character slot.
pub const CHAR_SLOT_WIDTH: u16 = 3;

/// A named color of the sidebar palette.
#[derive(Debug, Clone, Copy)]
pub struct PaletteColor {
    pub name: &'static str,
    pub id_base: &'static str,
    pub color: Color,
}

/// The colors of the sidebar palette, in order.
pub open spec fn palette_colors() -> Seq<Color> {
    seq![
        Color { r: 0, g: 0, b: 0 },
        Color { r: 238, g: 238, b: 238 },
        Color { r: 128, g: 128, b: 128 },
        Color { r: 224, g: 73, b: 73 },
        Color { r: 255, g: 157, b: 46 },
        Color { r: 224, g: 185, b: 82 },
        Color { r: 87, g: 166, b: 74 },
        Color { r: 91, g: 194, b: 150 },
        Color { r: 63, g: 169, b: 191 },
        Color { r: 82, g: 128, b: 214 },
        Color { r: 150, g: 104, b: 204 },
        Color { r: 218, g: 101, b: 157 },
        Color { r: 139, g: 89, b: 55 },
        Color { r: 194, g: 166, b: 122 },
        Color { r: 238, g: 112, b: 92 },
        Color { r: 224, g: 91, b: 122 },
        Color { r: 202, g: 90, b: 214 },
        Color { r: 113, g: 89, b: 193 },
        Color { r: 49, g: 74, b: 112 },
        Color { r: 116, g: 174, b: 220 },
        Color { r: 53, g: 140, b: 130 },
        Color { r: 151, g: 195, b: 67 },
        Color { r: 117, g: 132, b: 58 },
        Color { r: 221, g: 166, b: 45 },
    ]
}

/// The sidebar palette: named colors, each with the style ID base its
/// picks start from.
pub fn color_palette() -> (v: Vec<PaletteColor>)
    ensures
        v@.len() == palette_colors().len(),
        forall|i: int| 0 <= i < v@.len() ==> (#[trigger] v@[i]).color == palette_colors()[i],
{
    let mut v: Vec<PaletteColor> = Vec::new();
    v.push(PaletteColor { name: "black", id_base: "palette-black", color: Color { r: 0, g: 0, b: 0 } });
    v.push(PaletteColor { name: "white", id_base: "palette-white", color: Color { r: 238, g: 238, b: 238 } });
    v.push(PaletteColor { name: "gray", id_base: "palette-gray", color: Color { r: 128, g: 128, b: 128 } });
    v.push(PaletteColor { name: "red", id_base: "palette-red", color: Color { r: 224, g: 73, b: 73 } });
    v.push(PaletteColor { name: "orange", id_base: "palette-orange", color: Color { r: 255, g: 157, b: 46 } });
    v.push(PaletteColor { name: "yellow", id_base: "palette-yellow", color: Color { r: 224, g: 185, b: 82 } });
    v.push(PaletteColor { name: "green", id_base: "palette-green", color: Color { r: 87, g: 166, b: 74 } });
    v.push(PaletteColor { name: "mint", id_base: "palette-mint", color: Color { r: 91, g: 194, b: 150 } });
    v.push(PaletteColor { name: "cyan", id_base: "palette-cyan", color: Color { r: 63, g: 169, b: 191 } });
    v.push(PaletteColor { name: "blue", id_base: "palette-blue", color: Color { r: 82, g: 128, b: 214 } });
    v.push(PaletteColor { name: "purple", id_base: "palette-purple", color: Color { r: 150, g: 104, b: 204 } });
    v.push(PaletteColor { name: "pink", id_base: "palette-pink", color: Color { r: 218, g: 101, b: 157 } });
    v.push(PaletteColor { name: "brown", id_base: "palette-brown", color: Color { r: 139, g: 89, b: 55 } });
    v.push(PaletteColor { name: "tan", id_base: "palette-tan", color: Color { r: 194, g: 166, b: 122 } });
    v.push(PaletteColor { name: "coral", id_base: "palette-coral", color: Color { r: 238, g: 112, b: 92 } });
    v.push(PaletteColor { name: "rose", id_base: "palette-rose", color: Color { r: 224, g: 91, b: 122 } });
    v.push(PaletteColor { name: "magenta", id_base: "palette-magenta", color: Color { r: 202, g: 90, b: 214 } });
    v.push(PaletteColor { name: "violet", id_base: "palette-violet", color: Color { r: 113, g: 89, b: 193 } });
    v.push(PaletteColor { name: "navy", id_base: "palette-navy", color: Color { r: 49, g: 74, b: 112 } });
    v.push(PaletteColor { name: "sky", id_base: "palette-sky", color: Color { r: 116, g: 174, b: 220 } });
    v.push(PaletteColor { name: "teal", id_base: "palette-teal", color: Color { r: 53, g: 140, b: 130 } });
    v.push(PaletteColor { name: "lime", id_base: "palette-lime", color: Color { r: 151, g: 195, b: 67 } });
    v.push(PaletteColor { name: "olive", id_base: "palette-olive", color: Color { r: 117, g: 132, b: 58 } });
    v.push(PaletteColor { name: "gold", id_base: "palette-gold", color: Color { r: 221, g: 166, b: 45 } });
    v
}

/// The characters of the sidebar palette, in order.
pub open spec fn palette_chars() -> Seq<char> {
    seq!['#', ' ', '*', '+', '-', '/', '\\', '|', '_', '.', '\'', '"', '`', '~', '^', 'o', 'O', '█', '▓', '▒', '░', '▀', '▄', '▌', '▐', '■', '□', '▪', '▫', '─', '│', '┌', '┐', '└', '┘', '├', '┤', '┬', '┴', '┼', '╭', '╮', '╰', '╯', '•', '◆', '◇', '▲', '▼', '◀', '▶', '★', '☆', '✦', '✧', '✶', '✷', '✹', '✺']
}

/// The sidebar character palette.
pub fn character_palette() -> (v: Vec<char>)
    ensures
        v@ == palette_chars(),
{
    let mut v: Vec<char> = Vec::new();
    v.push('#');
    v.push(' ');
    v.push('*');
    v.push('+');
    v.push('-');
    v.push('/');
    v.push('\\');
    v.push('|');
    v.push('_');
    v.push('.');
    v.push('\'');
    v.push('"');
    v.push('`');
    v.push('~');
    v.push('^');
    v.push('o');
    v.push('O');
    v.push('█');
    v.push('▓');
    v.push('▒');
    v.push('░');
    v.push('▀');
    v.push('▄');
    v.push('▌');
    v.push('▐');
    v.push('■');
    v.push('□');
    v.push('▪');
    v.push('▫');
    v.push('─');
    v.push('│');
    v.push('┌');
    v.push('┐');
    v.push('└');
    v.push('┘');
    v.push('├');
    v.push('┤');
    v.push('┬');
    v.push('┴');
    v.push('┼');
    v.push('╭');
    v.push('╮');
    v.push('╰');
    v.push('╯');
    v.push('•');
    v.push('◆');
    v.push('◇');
    v.push('▲');
    v.push('▼');
    v.push('◀');
    v.push('▶');
    v.push('★');
    v.push('☆');
    v.push('✦');
    v.push('✧');
    v.push('✶');
    v.push('✷');
    v.push('✹');
    v.push('✺');
    v
}

/// Whether `color` is one of the sidebar palette's colors.
pub fn is_visible_palette_color(color: Color) -> (r: bool)
    ensures
        r == palette_colors().contains(color),
{
    let palette = color_palette();
    let mut i: usize = 0;
    while i < palette.len()
        invariant
            i <= palette@.len(),
            palette@.len() == palette_colors().len(),
            forall|j: int| 0 <= j < palette@.len() ==> (#[trigger] palette@[j]).color == palette_colors()[j],
            forall|j: int| 0 <= j < i ==> palette_colors()[j] != color,
        decreases palette.len() - i,
    {
        if palette[i].color == color {
            proof {
                assert(palette_colors()[i as int] == color);
            }
            return true;
        }
        i += 1;
    }
    false
}

/// `a` divided by the positive `b`, rounded toward zero.
pub open spec fn div_toward_zero(a: int, b: int) -> int {
    if a >= 0 {
        a / b
    } else {
        -((-a) / b)
    }
}

/// The value `step / max_step` of the way from `start` to `end`, rounded
/// toward `start`.
pub open spec fn spec_lerp_u8(start: u8, end: u8, step: int, max_step: int) -> u8 {
    if max_step == 0 {
        start
    } else {
        let s: int = if step <= i32::MAX { step } else { 0 };
        let m: int = if max_step <= i32::MAX { max_step } else { 1 };
        let v = start + div_toward_zero((end - start) * s, m);
        (if v < 0 { 0 } else if v > 255 { 255 } else { v }) as u8
    }
}

/// One channel `step / max_step` of the way from `start` to `end`.
pub fn lerp_u8(start: u8, end: u8, step: usize, max_step: usize) -> (r: u8)
    requires
        step > i32::MAX || -2147483648 <= (end - start) * step <= 2147483647,
    ensures
        r == spec_lerp_u8(start, end, step as int, max_step as int),
{
    if max_step == 0 {
        return start;
    }
    let s: i64 = if step <= 2147483647 { step as i64 } else { 0 };
    let m: i64 = if max_step <= 2147483647 { max_step as i64 } else { 1 };
    let delta: i64 = (end as i64) - (start as i64);
    proof {
        assert(-255 * 2147483647 <= delta * s <= 255 * 2147483647) by (nonlinear_arith)
            requires -255 <= delta <= 255, 0 <= s <= 2147483647;
    }
    let product: i64 = delta * s;
    let magnitude: u64 = if product >= 0 { product as u64 } else { (-product) as u64 };
    let q: u64 = magnitude / (m as u64);
    proof {
        assert(q <= magnitude) by (nonlinear_arith)
            requires q == magnitude / (m as u64), m >= 1;
    }
    let quotient: i64 = if product >= 0 { q as i64 } else { -(q as i64) };
    let v: i64 = (start as i64) + quotient;
    if v < 0 {
        0
    } else if v > 255 {
        255
    } else {
        v as u8
    }
}

/// The color `step / max_step` of the way from `start` to `end`.
pub open spec fn spec_lerp_color(start: Color, end: Color, step: int, max_step: int) -> Color {
    Color {
        r: spec_lerp_u8(start.r, end.r, step, max_step),
        g: spec_lerp_u8(start.g, end.g, step, max_step),
        b: spec_lerp_u8(start.b, end.b, step, max_step),
    }
}

/// The color `step / max_step` of the way from `start` to `end`.
pub fn lerp_color(start: Color, end: Color, step: usize, max_step: usize) -> (r: Color)
    requires
        step <= 8388607,
    ensures
        r == spec_lerp_color(start, end, step as int, max_step as int),
{
    proof {
        assert(-2147483648 <= (end.r - start.r) * step <= 2147483647) by (nonlinear_arith)
            requires -255 <= end.r - start.r <= 255, 0 <= step <= 8388607;
        assert(-2147483648 <= (end.g - start.g) * step <= 2147483647) by (nonlinear_arith)
            requires -255 <= end.g - start.g <= 255, 0 <= step <= 8388607;
        assert(-2147483648 <= (end.b - start.b) * step <= 2147483647) by (nonlinear_arith)
            requires -255 <= end.b - start.b <= 255, 0 <= step <= 8388607;
    }
    Color {
        r: lerp_u8(start.r, end.r, step, max_step),
        g: lerp_u8(start.g, end.g, step, max_step),
        b: lerp_u8(start.b, end.b, step, max_step),
    }
}

/// The neutral color at `index` of the picker's neutral rows: a gray ramp,
/// a warm ramp, then a cool ramp, twelve steps each.
pub open spec fn spec_neutral_palette_color(index: int) -> Color {
    let row = index / 12;
    let column = index % 12;
    if row == 0 {
        let v = spec_lerp_u8(18, 242, column, 11);
        Color { r: v, g: v, b: v }
    } else if row == 1 {
        spec_lerp_color(Color { r: 55, g: 38, b: 27 }, Color { r: 244, g: 222, b: 186 }, column, 11)
    } else {
        spec_lerp_color(Color { r: 30, g: 43, b: 54 }, Color { r: 222, g: 238, b: 245 }, column, 11)
    }
}

/// The neutral color at `index` of the expanded picker's neutral rows.
pub fn neutral_palette_color(index: usize) -> (r: Color)
    ensures
        r == spec_neutral_palette_color(index as int),
{
    let columns = EXPANDED_COLOR_COLUMNS as usize;
    let row = index / columns;
    let column = index % columns;
    if row == 0 {
        proof {
            assert(-2147483648 <= (242 - 18) * column <= 2147483647);
        }
        let value = lerp_u8(18, 242, column, columns - 1);
        Color { r: value, g: value, b: value }
    } else if row == 1 {
        lerp_color(Color { r: 55, g: 38, b: 27 }, Color { r: 244, g: 222, b: 186 }, column, columns - 1)
    } else {
        lerp_color(Color { r: 30, g: 43, b: 54 }, Color { r: 222, g: 238, b: 245 }, column, columns - 1)
    }
}

/// The lower-case hexadecimal digit of `d`.
pub open spec fn hex_digit_lower(d: u8) -> char {
    if d < 10 {
        ((d as u32) + ('0' as u32)) as char
    } else {
        ((d as u32) - 10 + ('a' as u32)) as char
    }
}

/// The two lower-case hexadecimal digits of a byte.
pub open spec fn hex_byte_lower(v: u8) -> Seq<char> {
    seq![hex_digit_lower(v / 16), hex_digit_lower(v % 16)]
}

fn hex_lower(d: u8) -> (r: char)
    requires
        d < 16,
    ensures
        r == hex_digit_lower(d),
{
    if d < 10 {
        ((d as u32) + ('0' as u32)) as u8 as char
    } else {
        ((d as u32) - 10 + ('a' as u32)) as u8 as char
    }
}

fn push_hex_byte(s: &mut String, v: u8)
    ensures
        final(s)@ == old(s)@ + hex_byte_lower(v),
{
    push_char(s, hex_lower(v / 16));
    push_char(s, hex_lower(v % 16));
}

/// The six lower-case hexadecimal digits of a color.
pub open spec fn hex_color_lower(c: Color) -> Seq<char> {
    hex_byte_lower(c.r) + hex_byte_lower(c.g) + hex_byte_lower(c.b)
}

/// The style ID a custom color's style starts from: `color-rrggbb`.
pub open spec fn spec_color_id_base(c: Color) -> Seq<char> {
    "color-"@ + hex_color_lower(c)
}

/// The style ID base for a custom color.
pub fn style_id_base_for_color(color: Color) -> (r: String)
    ensures
        r@ == spec_color_id_base(color),
{
    let mut id = String::new();
    push_str(&mut id, "color-");
    push_hex_byte(&mut id, color.r);
    push_hex_byte(&mut id, color.g);
    push_hex_byte(&mut id, color.b);
    proof {
        assert(id@ == spec_color_id_base(color));
    }
    id
}

/// The `-name` suffixes of a list of attributes.
pub open spec fn attrs_suffix(attrs: Seq<TextAttr>) -> Seq<char>
    decreases attrs.len(),
{
    if attrs.len() == 0 {
        Seq::empty()
    } else {
        attrs_suffix(attrs.drop_last()) + "-"@ + attr_name(attrs.last())
    }
}

/// The style ID base for a style variant: the foreground's base, then
/// `-bgrrggbb` for a background, then `-name` for each attribute.
pub open spec fn spec_variant_id_base(fg: Color, bg: Option<Color>, attrs: Seq<TextAttr>) -> Seq<char> {
    spec_color_id_base(fg) + match bg {
        Some(c) => "-bg"@ + hex_color_lower(c),
        None => Seq::empty(),
    } + attrs_suffix(attrs)
}

/// The style ID base for a style variant.
pub fn style_id_base_for_variant(fg: Color, bg: Option<Color>, attrs: &Vec<TextAttr>) -> (r: String)
    ensures
        r@ == spec_variant_id_base(fg, bg, attrs@),
{
    let mut id = style_id_base_for_color(fg);
    let ghost head = id@;
    match bg {
        Some(c) => {
            push_str(&mut id, "-bg");
            push_hex_byte(&mut id, c.r);
            push_hex_byte(&mut id, c.g);
            push_hex_byte(&mut id, c.b);
            proof {
                assert(id@ == head + ("-bg"@ + hex_color_lower(c)));
            }
        },
        None => {
            proof {
                assert(id@ == head + Seq::<char>::empty());
            }
        },
    }
    let ghost mid = id@;
    let mut i: usize = 0;
    while i < attrs.len()
        invariant
            i <= attrs@.len(),
            id@ == mid + attrs_suffix(attrs@.take(i as int)),
        decreases attrs.len() - i,
    {
        push_str(&mut id, "-");
        push_str(&mut id, attrs[i].as_str());
        proof {
            assert(attrs@.take(i + 1).drop_last() == attrs@.take(i as int));
            assert(attrs@.take(i + 1).last() == attrs@[i as int]);
        }
        i += 1;
    }
    proof {
        assert(attrs@.take(attrs@.len() as int) == attrs@);
    }
    id
}

/// The attribute choices, in the order attribute lists are kept.
pub open spec fn attr_choices() -> Seq<TextAttr> {
    seq![TextAttr::Bold, TextAttr::Dim, TextAttr::Italic, TextAttr::Underline, TextAttr::Reverse]
}

/// The attribute choices in display order.
pub fn attr_choices_vec() -> (r: Vec<TextAttr>)
    ensures
        r@ == attr_choices(),
{
    let mut v = Vec::new();
    v.push(TextAttr::Bold);
    v.push(TextAttr::Dim);
    v.push(TextAttr::Italic);
    v.push(TextAttr::Underline);
    v.push(TextAttr::Reverse);
    v
}

/// Whether `attrs` holds `attr`.
pub fn attrs_contain(attrs: &Vec<TextAttr>, attr: TextAttr) -> (r: bool)
    ensures
        r == attrs@.contains(attr),
{
    let mut i: usize = 0;
    while i < attrs.len()
        invariant
            i <= attrs@.len(),
            forall|j: int| 0 <= j < i ==> attrs@[j] != attr,
        decreases attrs.len() - i,
    {
        if attrs[i] == attr {
            proof {
                assert(attrs@[i as int] == attr);
            }
            return true;
        }
        i += 1;
    }
    false
}

/// The attributes of `attrs`, each once, in the order of the choices.
pub open spec fn spec_normalized_attrs(attrs: Seq<TextAttr>) -> Seq<TextAttr> {
    attr_choices().filter(|a: TextAttr| attrs.contains(a))
}

/// Keeps each attribute of `attrs` once, in the order of the choices.
pub fn normalize_attrs(attrs: Vec<TextAttr>) -> (r: Vec<TextAttr>)
    ensures
        r@ == spec_normalized_attrs(attrs@),
{
    let choices = attr_choices_vec();
    let mut out: Vec<TextAttr> = Vec::new();
    let mut i: usize = 0;
    while i < choices.len()
        invariant
            i <= choices@.len(),
            choices@ == attr_choices(),
            out@ == choices@.take(i as int).filter(|a: TextAttr| attrs@.contains(a)),
        decreases choices.len() - i,
    {
        let a = choices[i];
        proof {
            reveal(Seq::filter);
            assert(choices@.take(i + 1).drop_last() == choices@.take(i as int));
        }
        if attrs_contain(&attrs, a) {
            out.push(a);
        }
        i += 1;
    }
    proof {
        assert(choices@.take(choices@.len() as int) == choices@);
    }
    out
}

/// The attribute's caption.
pub fn attr_label(attr: TextAttr) -> (r: &'static str)
    ensures
        r@ == match attr {
            TextAttr::Bold => "Bold"@,
            TextAttr::Dim => "Dim"@,
            TextAttr::Italic => "Italic"@,
            TextAttr::Underline => "Underline"@,
            TextAttr::Reverse => "Reverse"@,
        },
{
    match attr {
        TextAttr::Bold => "Bold",
        TextAttr::Dim => "Dim",
        TextAttr::Italic => "Italic",
        TextAttr::Underline => "Underline",
        TextAttr::Reverse => "Reverse",
    }
}

/// The attribute's one-letter caption.
pub fn attr_short_label(attr: TextAttr) -> (r: &'static str)
    ensures
        r@ == match attr {
            TextAttr::Bold => "B"@,
            TextAttr::Dim => "D"@,
            TextAttr::Italic => "I"@,
            TextAttr::Underline => "U"@,
            TextAttr::Reverse => "R"@,
        },
{
    match attr {
        TextAttr::Bold => "B",
        TextAttr::Dim => "D",
        TextAttr::Italic => "I",
        TextAttr::Underline => "U",
        TextAttr::Reverse => "R",
    }
}

/// How a brush character is named: `space`, or the character quoted.
pub open spec fn spec_brush_label(ch: char) -> Seq<char> {
    if ch == ' ' {
        "space"@
    } else {
        crate::text::char_debug_text(ch)
    }
}

/// How a brush character is named: `space`, or the character quoted.
pub fn brush_label(ch: char) -> (r: String)
    ensures
        r@ == spec_brush_label(ch),
{
    if ch == ' ' {
        "space".to_string()
    } else {
        char_debug_string(ch)
    }
}

/// How a palette slot shows its character: a middle dot for a space.
pub fn palette_char_symbol(ch: char) -> (r: String)
    ensures
        ch == ' ' ==> r@ == "·"@,
        ch != ' ' ==> r@ == seq![ch],
{
    if ch == ' ' {
        "·".to_string()
    } else {
        let mut s = String::new();
        push_char(&mut s, ch);
        s
    }
}

/// The perceived brightness of a color, from 0 to 255: a weighted mean of
/// its channels.
pub open spec fn luminance(c: Color) -> int {
    (c.r * 299 + c.g * 587 + c.b * 114) / 1000
}

/// A text color that stays readable on `color`: near-black on bright
/// colors, near-white on dark ones.
pub fn readable_text_color(color: Color) -> (r: Color)
    ensures
        r == if luminance(color) > 150 {
            Color { r: 24, g: 28, b: 32 }
        } else {
            Color { r: 245, g: 248, b: 250 }
        },
{
    let l = ((color.r as u32) * 299 + (color.g as u32) * 587 + (color.b as u32) * 114) / 1000;
    if l > 150 {
        Color { r: 24, g: 28, b: 32 }
    } else {
        Color { r: 245, g: 248, b: 250 }
    }
}

/// The color the RGB dialog draws a channel's slider in.
pub fn channel_color(channel: crate::editor::controls::RgbChannel) -> (r: Color)
    ensures
        r == match channel {
            crate::editor::controls::RgbChannel::Red => Color { r: 255, g: 113, b: 113 },
            crate::editor::controls::RgbChannel::Green => Color { r: 92, g: 214, b: 132 },
            crate::editor::controls::RgbChannel::Blue => Color { r: 105, g: 160, b: 255 },
        },
{
    match channel {
        crate::editor::controls::RgbChannel::Red => Color { r: 255, g: 113, b: 113 },
        crate::editor::controls::RgbChannel::Green => Color { r: 92, g: 214, b: 132 },
        crate::editor::controls::RgbChannel::Blue => Color { r: 105, g: 160, b: 255 },
    }
}

} // verus!
