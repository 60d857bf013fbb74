use vstd::prelude::*;

use crate::editor::controls::{ColorControl, ColorTarget};
use crate::editor::geometry::{palette_columns, palette_rows, ScreenRect};
use crate::editor::palette::{
    character_palette, color_palette, palette_chars, palette_colors, CHAR_SLOT_WIDTH, COLOR_SLOT_WIDTH,
};
use crate::editor::state::{AppState, ButtonHit};
use crate::editor::view::{attr_button_layout, attr_buttons_placed, selection_button_layout, selection_buttons_placed};

verus! {

/// Where the sidebar puts its rows, top to bottom. A row is `None` where
/// the sidebar ran out of room before it; a palette is the empty rectangle
/// then.
#[derive(Debug, Clone, Copy)]
pub struct SidebarLayout {
    pub tool_row: Option<u16>,
    pub brush_row: Option<u16>,
    pub style_row: Option<u16>,
    pub fg_row: Option<u16>,
    pub bg_row: Option<u16>,
    pub clear_bg_row: Option<u16>,
    pub attrs_row: Option<u16>,
    /// The selection's size, or the current stamp's.
    pub info_row: Option<u16>,
    pub selection_buttons_row: Option<u16>,
    pub colors_title_row: Option<u16>,
    pub color_palette: ScreenRect,
    pub recents_title_row: Option<u16>,
    pub recent_palette: ScreenRect,
    pub more_colors_row: Option<u16>,
    pub rgb_row: Option<u16>,
    pub characters_title_row: Option<u16>,
    pub character_palette: ScreenRect,
    pub first_hint_row: Option<u16>,
    pub second_hint_row: Option<u16>,
}

/// The row a one-row line takes at cursor `y`, while rows remain.
pub open spec fn row_at(y: int, max_y: int) -> Option<u16> {
    if y < max_y { Some(y as u16) } else { None }
}

/// The cursor after a one-row line (or a blank row) at `y`.
pub open spec fn below(y: int, max_y: int) -> int {
    if y < max_y { y + 1 } else { y }
}

/// The empty rectangle.
pub open spec fn no_rect() -> ScreenRect {
    ScreenRect { x: 0, y: 0, width: 0, height: 0 }
}

/// How many rows `n` items take in `columns` columns, capped at `u16::MAX`.
pub open spec fn rows_for(n: int, columns: int) -> int {
    let c: int = if columns > 0 { columns } else { 1 };
    let rows: int = (n + c - 1) / c;
    if rows <= u16::MAX { rows } else { u16::MAX as int }
}

/// How many columns of `slot` cells fit in `width`, at least one.
pub open spec fn columns_for(width: u16, slot: u16) -> int {
    if width / slot > 0 { (width / slot) as int } else { 1 }
}

/// A palette of `n` items in slots `slot` cells wide at cursor `y`: as
/// many rows as it needs, but no more than remain and no more than `cap`.
pub open spec fn block_at(inner: ScreenRect, y: int, max_y: int, n: int, slot: u16, cap: int) -> ScreenRect {
    if y < max_y {
        let rows = rows_for(n, columns_for(inner.width, slot));
        let room = max_y - y;
        let h1 = if rows < room { rows } else { room };
        let h = if h1 < cap { h1 } else { cap };
        ScreenRect { x: inner.x, y: y as u16, width: inner.width, height: h as u16 }
    } else {
        no_rect()
    }
}

/// The cursor after a palette block at `y`.
pub open spec fn below_block(y: int, b: ScreenRect) -> int {
    y + b.height
}

/// The sidebar's layout inside `inner`, down to row `max_y`: tool, brush
/// and style rows; the foreground, background and (with a background) clear
/// rows; the attribute toggles; the selection or stamp line and, with a
/// selection, its buttons; a blank row and the colors; with recent colors,
/// a blank row and up to three rows of them; a blank row, the more-colors
/// and RGB rows; a blank row and the characters; a blank row and two hint
/// rows.
pub open spec fn sidebar_rows(
    inner: ScreenRect,
    max_y: int,
    has_bg: bool,
    has_info: bool,
    has_selection: bool,
    n_recent: int,
) -> SidebarLayout {
    let y0 = inner.y as int;
    let y1 = below(y0, max_y);
    let y2 = below(y1, max_y);
    let y3 = below(y2, max_y);
    let y4 = below(y3, max_y);
    let y5 = below(y4, max_y);
    let y6 = if has_bg { below(y5, max_y) } else { y5 };
    let y7 = below(y6, max_y);
    let y8 = if has_info { below(y7, max_y) } else { y7 };
    let y9 = if has_selection { below(y8, max_y) } else { y8 };
    let y10 = below(y9, max_y);
    let y11 = below(y10, max_y);
    let colors = block_at(inner, y11, max_y, palette_colors().len() as int, COLOR_SLOT_WIDTH, u16::MAX as int);
    let y12 = below_block(y11, colors);
    let y13 = if n_recent > 0 { below(y12, max_y) } else { y12 };
    let y14 = if n_recent > 0 { below(y13, max_y) } else { y13 };
    let recents = if n_recent > 0 { block_at(inner, y14, max_y, n_recent, COLOR_SLOT_WIDTH, 3) } else { no_rect() };
    let y15 = below_block(y14, recents);
    let y16 = below(y15, max_y);
    let y17 = below(y16, max_y);
    let y18 = below(y17, max_y);
    let y19 = below(y18, max_y);
    let y20 = below(y19, max_y);
    let chars = block_at(inner, y20, max_y, palette_chars().len() as int, CHAR_SLOT_WIDTH, u16::MAX as int);
    let y21 = below_block(y20, chars);
    let y22 = below(y21, max_y);
    let y23 = below(y22, max_y);
    SidebarLayout {
        tool_row: row_at(y0, max_y),
        brush_row: row_at(y1, max_y),
        style_row: row_at(y2, max_y),
        fg_row: row_at(y3, max_y),
        bg_row: row_at(y4, max_y),
        clear_bg_row: if has_bg { row_at(y5, max_y) } else { None },
        attrs_row: row_at(y6, max_y),
        info_row: if has_info { row_at(y7, max_y) } else { None },
        selection_buttons_row: if has_selection { row_at(y8, max_y) } else { None },
        colors_title_row: row_at(y10, max_y),
        color_palette: colors,
        recents_title_row: if n_recent > 0 { row_at(y13, max_y) } else { None },
        recent_palette: recents,
        more_colors_row: row_at(y16, max_y),
        rgb_row: row_at(y17, max_y),
        characters_title_row: row_at(y19, max_y),
        character_palette: chars,
        first_hint_row: row_at(y22, max_y),
        second_hint_row: row_at(y23, max_y),
    }
}

/// The last row the sidebar may use, plus one.
pub open spec fn sidebar_bottom(inner: ScreenRect) -> int {
    if inner.y + inner.height <= u16::MAX { inner.y + inner.height } else { u16::MAX as int }
}

/// The one-row rectangle across `inner` at `row`, or the empty one.
pub open spec fn line_rect(inner: ScreenRect, row: Option<u16>) -> ScreenRect {
    match row {
        Some(y) => ScreenRect { x: inner.x, y, width: inner.width, height: 1 },
        None => no_rect(),
    }
}

/// The color controls at the rows the layout gives them, top to bottom.
pub open spec fn color_control_hits(inner: ScreenRect, l: SidebarLayout) -> Seq<ButtonHit<ColorControl>> {
    let fg = match l.fg_row {
        Some(_) => seq![ButtonHit { action: ColorControl::Target(ColorTarget::Foreground), area: line_rect(inner, l.fg_row) }],
        None => Seq::empty(),
    };
    let bg = match l.bg_row {
        Some(_) => seq![ButtonHit { action: ColorControl::Target(ColorTarget::Background), area: line_rect(inner, l.bg_row) }],
        None => Seq::empty(),
    };
    let clear = match l.clear_bg_row {
        Some(_) => seq![ButtonHit { action: ColorControl::TransparentBackground, area: line_rect(inner, l.clear_bg_row) }],
        None => Seq::empty(),
    };
    fg + bg + clear
}

/// The state has a line about the selection or the current stamp.
pub open spec fn has_info_line(s: AppState) -> bool {
    ||| s.selection is Some
    ||| (s.current_stamp_index matches Some(i) && i < s.stamps@.len())
}

/// One row down from `y`, unless no rows remain.
fn step(y: u16, max_y: u16) -> (r: u16)
    ensures
        r == below(y as int, max_y as int),
{
    if y < max_y { y + 1 } else { y }
}

/// A palette block of `n` items at `y`; see `block_at`.
fn place_block(inner: ScreenRect, y: u16, max_y: u16, n: usize, slot: u16, cap: u16) -> (r: ScreenRect)
    requires
        slot > 0,
    ensures
        r == block_at(inner, y as int, max_y as int, n as int, slot, cap as int),
        y < max_y ==> y + r.height <= max_y,
{
    if y < max_y {
        let columns = palette_columns(inner.width, slot);
        let rows = palette_rows(n, columns);
        let room = max_y - y;
        let h1 = if rows < room { rows } else { room };
        let h = if h1 < cap { h1 } else { cap };
        ScreenRect { x: inner.x, y, width: inner.width, height: h }
    } else {
        ScreenRect::empty()
    }
}

/// The row at `y`, if any remain.
fn row(y: u16, max_y: u16) -> (r: Option<u16>)
    ensures
        r == row_at(y as int, max_y as int),
{
    if y < max_y { Some(y) } else { None }
}

/// The one-row rectangle across `inner` at `row`.
fn line_area(inner: ScreenRect, row: Option<u16>) -> (r: ScreenRect)
    ensures
        r == line_rect(inner, row),
{
    match row {
        Some(y) => ScreenRect { x: inner.x, y, width: inner.width, height: 1 },
        None => ScreenRect::empty(),
    }
}

/// Lays the sidebar out inside `inner` for `has_bg` (a background color to
/// clear), `has_info` (a selection or stamp line), `has_selection` and
/// `n_recent` recent colors.
pub fn sidebar_layout(inner: ScreenRect, has_bg: bool, has_info: bool, has_selection: bool, n_recent: usize) -> (r: SidebarLayout)
    ensures
        r == sidebar_rows(inner, sidebar_bottom(inner), has_bg, has_info, has_selection, n_recent as int),
{
    let max_y = inner.y.saturating_add(inner.height);
    let y0 = inner.y;
    let y1 = step(y0, max_y);
    let y2 = step(y1, max_y);
    let y3 = step(y2, max_y);
    let y4 = step(y3, max_y);
    let y5 = step(y4, max_y);
    let y6 = if has_bg { step(y5, max_y) } else { y5 };
    let y7 = step(y6, max_y);
    let y8 = if has_info { step(y7, max_y) } else { y7 };
    let y9 = if has_selection { step(y8, max_y) } else { y8 };
    let y10 = step(y9, max_y);
    let y11 = step(y10, max_y);
    let colors = place_block(inner, y11, max_y, color_palette().len(), COLOR_SLOT_WIDTH, u16::MAX);
    let y12 = y11 + colors.height;
    let y13 = if n_recent > 0 { step(y12, max_y) } else { y12 };
    let y14 = if n_recent > 0 { step(y13, max_y) } else { y13 };
    let recents = if n_recent > 0 {
        place_block(inner, y14, max_y, n_recent, COLOR_SLOT_WIDTH, 3)
    } else {
        ScreenRect::empty()
    };
    let y15 = y14 + recents.height;
    let y16 = step(y15, max_y);
    let y17 = step(y16, max_y);
    let y18 = step(y17, max_y);
    let y19 = step(y18, max_y);
    let y20 = step(y19, max_y);
    let chars = place_block(inner, y20, max_y, character_palette().len(), CHAR_SLOT_WIDTH, u16::MAX);
    let y21 = y20 + chars.height;
    let y22 = step(y21, max_y);
    let y23 = step(y22, max_y);
    SidebarLayout {
        tool_row: row(y0, max_y),
        brush_row: row(y1, max_y),
        style_row: row(y2, max_y),
        fg_row: row(y3, max_y),
        bg_row: row(y4, max_y),
        clear_bg_row: if has_bg { row(y5, max_y) } else { None },
        attrs_row: row(y6, max_y),
        info_row: if has_info { row(y7, max_y) } else { None },
        selection_buttons_row: if has_selection { row(y8, max_y) } else { None },
        colors_title_row: row(y10, max_y),
        color_palette: colors,
        recents_title_row: if n_recent > 0 { row(y13, max_y) } else { None },
        recent_palette: recents,
        more_colors_row: row(y16, max_y),
        rgb_row: row(y17, max_y),
        characters_title_row: row(y19, max_y),
        character_palette: chars,
        first_hint_row: row(y22, max_y),
        second_hint_row: row(y23, max_y),
    }
}

impl AppState {
    /// Lays the sidebar out inside `inner` and records where its controls
    /// are for the mouse; nothing else changes.
    pub fn place_sidebar(&mut self, inner: ScreenRect) -> (r: SidebarLayout)
        requires
            inner.x + inner.width <= u16::MAX,
            old(self).current_style < old(self).project.styles@.len(),
        ensures
            r == sidebar_rows(
                inner,
                sidebar_bottom(inner),
                old(self).project.styles@[old(self).current_style as int].bg is Some,
                has_info_line(*old(self)),
                old(self).selection is Some,
                old(self).recent_extra_colors@.len() as int,
            ),
            final(self).areas.tool_button_area == line_rect(inner, r.tool_row),
            final(self).areas.brush_button_area == line_rect(inner, r.brush_row),
            final(self).areas.color_palette_area == r.color_palette,
            final(self).areas.recent_color_palette_area == r.recent_palette,
            final(self).areas.character_palette_area == r.character_palette,
            final(self).areas.more_colors_button_area == line_rect(inner, r.more_colors_row),
            final(self).areas.rgb_button_area == line_rect(inner, r.rgb_row),
            final(self).areas.color_control_areas@ == color_control_hits(inner, r),
            match r.attrs_row {
                Some(y) => attr_buttons_placed(inner, y, final(self).areas.attr_button_areas@),
                None => final(self).areas.attr_button_areas@.len() == 0,
            },
            match r.selection_buttons_row {
                Some(y) => selection_buttons_placed(inner, y, final(self).areas.selection_action_areas@),
                None => final(self).areas.selection_action_areas@.len() == 0,
            },
            final(self).areas.canvas_area == old(self).areas.canvas_area,
            final(self).areas.welcome_action_areas == old(self).areas.welcome_action_areas,
            final(self).areas.top_action_areas == old(self).areas.top_action_areas,
            final(self).areas.modal_tool_areas == old(self).areas.modal_tool_areas,
            final(self).areas.modal_action_areas == old(self).areas.modal_action_areas,
            final(self).areas.modal_color_areas == old(self).areas.modal_color_areas,
            final(self).areas.modal_rgb_areas == old(self).areas.modal_rgb_areas,
            final(self).areas.modal_area == old(self).areas.modal_area,
            *final(self) == (AppState { areas: final(self).areas, ..*old(self) }),
    {
        let has_bg = self.project.styles[self.current_style].bg.is_some();
        let has_selection = self.selection.is_some();
        let has_info = has_selection || self.current_stamp().is_some();
        let layout = sidebar_layout(inner, has_bg, has_info, has_selection, self.recent_extra_colors.len());
        self.areas.tool_button_area = line_area(inner, layout.tool_row);
        self.areas.brush_button_area = line_area(inner, layout.brush_row);
        self.areas.color_palette_area = layout.color_palette;
        self.areas.recent_color_palette_area = layout.recent_palette;
        self.areas.character_palette_area = layout.character_palette;
        self.areas.more_colors_button_area = line_area(inner, layout.more_colors_row);
        self.areas.rgb_button_area = line_area(inner, layout.rgb_row);
        let mut controls: Vec<ButtonHit<ColorControl>> = Vec::new();
        if layout.fg_row.is_some() {
            controls.push(ButtonHit {
                action: ColorControl::Target(ColorTarget::Foreground),
                area: line_area(inner, layout.fg_row),
            });
        }
        if layout.bg_row.is_some() {
            controls.push(ButtonHit {
                action: ColorControl::Target(ColorTarget::Background),
                area: line_area(inner, layout.bg_row),
            });
        }
        if layout.clear_bg_row.is_some() {
            controls.push(ButtonHit { action: ColorControl::TransparentBackground, area: line_area(inner, layout.clear_bg_row) });
        }
        proof {
            assert(controls@ =~= color_control_hits(inner, layout));
        }
        self.areas.color_control_areas = controls;
        self.areas.attr_button_areas = match layout.attrs_row {
            Some(y) => attr_button_layout(inner, y),
            None => Vec::new(),
        };
        self.areas.selection_action_areas = match layout.selection_buttons_row {
            Some(y) => selection_button_layout(inner, y),
            None => Vec::new(),
        };
        layout
    }
}

} // verus!
