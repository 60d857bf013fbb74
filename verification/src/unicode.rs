use unicode_general_category::{get_general_category, GeneralCategory};
use unicode_width::UnicodeWidthChar;
use vstd::prelude::*;

verus! {

/// The Unicode general categories that the V1 character rules tell apart;
/// every other category is `Other`.
#[derive(Debug, Clone, Copy, PartialEq, Eq, Structural)]
pub enum CharCategory {
    Control,
    Format,
    NonspacingMark,
    SpacingMark,
    EnclosingMark,
    Surrogate,
    Unassigned,
    Other,
}

/// The general category of a character in the Unicode tables of the
/// `unicode-general-category` crate, as far as `CharCategory` tells them
/// apart. Named, not spelled out.
pub uninterp spec fn char_category(ch: char) -> CharCategory;

/// The display width of a character in the tables of the `unicode-width`
/// crate (`None` for control characters). Named, not spelled out.
pub uninterp spec fn unicode_display_width(ch: char) -> Option<usize>;

/// The general category of `ch` as far as `CharCategory` tells them apart,
/// with the ASCII range and the C1 controls spelled out as the crate's
/// table gives them: U+0000..U+001F and U+007F..U+009F are `Control`
/// (`Cc`), and U+0020..U+007E are spaces, punctuation, symbols, digits and
/// letters, which `CharCategory` counts as `Other`.
pub open spec fn category_of(ch: char) -> CharCategory {
    if is_control_code(ch) {
        CharCategory::Control
    } else if (ch as u32) <= 0x7e {
        CharCategory::Other
    } else {
        char_category(ch)
    }
}

/// The display width of `ch`, with the ranges the crate decides before its
/// tables spelled out: U+0000..U+001F and U+007F..U+009F have none, and
/// U+0020..U+007E are one cell wide.
pub open spec fn width_of(ch: char) -> Option<usize> {
    if is_control_code(ch) {
        None
    } else if (ch as u32) <= 0x7e {
        Some(1usize)
    } else {
        unicode_display_width(ch)
    }
}

/// `unicode_general_category::get_general_category`, with its result mapped
/// variant by variant onto `CharCategory`. Claimed of it: the result is a
/// function of the character alone, and on U+0000..U+009F it is what the
/// crate's table (`GENERAL_CATEGORY` in `tables.rs`) lists there.
#[verifier::external_body]
fn general_category(ch: char) -> (r: CharCategory)
    ensures
        r == char_category(ch),
        r == category_of(ch),
{
    match get_general_category(ch) {
        GeneralCategory::Control => CharCategory::Control,
        GeneralCategory::Format => CharCategory::Format,
        GeneralCategory::NonspacingMark => CharCategory::NonspacingMark,
        GeneralCategory::SpacingMark => CharCategory::SpacingMark,
        GeneralCategory::EnclosingMark => CharCategory::EnclosingMark,
        GeneralCategory::Surrogate => CharCategory::Surrogate,
        GeneralCategory::Unassigned => CharCategory::Unassigned,
        _ => CharCategory::Other,
    }
}

/// `unicode_width::UnicodeWidthChar::width`. Claimed of it: the result is a
/// function of the character alone, and below U+00A0 it is what
/// `single_char_width` decides before consulting its tables.
#[verifier::external_body]
fn display_width(ch: char) -> (r: Option<usize>)
    ensures
        r == unicode_display_width(ch),
        r == width_of(ch),
{
    UnicodeWidthChar::width(ch)
}

/// Whether a character is in Unicode's `Cc` category: U+0000..U+001F and
/// U+007F..U+009F, the characters `char::is_control` reports.
pub open spec fn is_control_code(ch: char) -> bool {
    (ch as u32) < 0x20 || (0x7f <= (ch as u32) && (ch as u32) <= 0x9f)
}

/// The V1 rule on a character, given its general category and display width:
/// not a control, tab, newline, carriage return, escape or delete character;
/// not a control, format, mark, surrogate or unassigned character; and
/// exactly one cell wide.
pub open spec fn spec_v1_verdict(ch: char, category: CharCategory, width: Option<usize>) -> bool {
    &&& !is_control_code(ch)
    &&& ch != '\t' && ch != '\n' && ch != '\r' && ch != '\u{1b}' && ch != '\u{7f}'
    &&& category == CharCategory::Other
    &&& width == Some(1usize)
}

/// Whether a character may be stored in a V1 file.
pub open spec fn spec_is_valid_v1_character(ch: char) -> bool {
    spec_v1_verdict(ch, category_of(ch), width_of(ch))
}

/// V1 holds every printable ASCII character, space through `~` (digits,
/// letters, punctuation and symbols alike), and no C0 or C1 control
/// character.
pub proof fn lemma_printable_ascii_is_v1(ch: char)
    ensures
        0x20 <= (ch as u32) <= 0x7e ==> spec_is_valid_v1_character(ch),
        is_control_code(ch) ==> !spec_is_valid_v1_character(ch),
{
    if 0x20 <= (ch as u32) <= 0x7e {
        assert(ch != '\t' && ch != '\n' && ch != '\r' && ch != '\u{1b}' && ch != '\u{7f}');
    }
}

/// `char::is_control`.
pub fn is_control(ch: char) -> (r: bool)
    ensures
        r == is_control_code(ch),
{
    let code = ch as u32;
    code < 0x20 || (0x7f <= code && code <= 0x9f)
}

/// The V1 rule on a character whose general category and display width are
/// already known.
pub fn v1_character_verdict(ch: char, category: CharCategory, width: Option<usize>) -> (r: bool)
    ensures
        r == spec_v1_verdict(ch, category, width),
{
    if is_control(ch) || ch == '\t' || ch == '\n' || ch == '\r' || ch == '\u{1b}' || ch == '\u{7f}' {
        return false;
    }
    match category {
        CharCategory::Other => {},
        _ => {
            return false;
        },
    }
    match width {
        Some(w) => w == 1,
        None => false,
    }
}

/// Whether a character may be stored in a V1 file: one scalar value, one
/// cell wide, and not a control, format, mark, surrogate or unassigned
/// character.
pub fn is_valid_v1_character(ch: char) -> (r: bool)
    ensures
        r == spec_is_valid_v1_character(ch),
        0x20 <= (ch as u32) <= 0x7e ==> r,
        is_control_code(ch) ==> !r,
{
    proof {
        lemma_printable_ascii_is_v1(ch);
    }
    if is_control(ch) || ch == '\t' || ch == '\n' || ch == '\r' || ch == '\u{1b}' || ch == '\u{7f}' {
        return false;
    }
    let category = general_category(ch);
    let width = display_width(ch);
    v1_character_verdict(ch, category, width)
}

} // verus!
