use vstd::prelude::*;

use crate::editor::controls::{ColorTarget, Tool};
use crate::editor::naming::{first_free, numbered, style_id_set, unique_style_id};
use crate::editor::palette::{
    attr_label, attrs_contain, hex_color_lower, is_visible_palette_color, normalize_attrs, palette_colors,
    spec_color_id_base, spec_normalized_attrs, spec_variant_id_base, style_id_base_for_color,
    style_id_base_for_variant, PaletteColor, MAX_RECENT_COLORS,
};
use crate::editor::state::{cells_styled, changes_styled, frames_styled, stamps_styled, strokes_styled, AppState};
use crate::model::{spec_to_hex, Color, TerminalStyle, TextAttr, MAX_STYLES};
use crate::text::{owned, push_str};

verus! {

/// `s` has exactly these colors and attributes.
pub open spec fn style_matches(s: TerminalStyle, fg: Color, bg: Option<Color>, attrs: Seq<TextAttr>) -> bool {
    s.fg == fg && s.bg == bg && s.attrs@ == attrs
}

/// Whether two optional colors are equal.
pub fn same_opt_color(a: Option<Color>, b: Option<Color>) -> (r: bool)
    ensures
        r == (a == b),
{
    match (a, b) {
        (None, None) => true,
        (Some(x), Some(y)) => x == y,
        _ => false,
    }
}

/// Whether two attribute lists are equal.
pub fn attrs_equal(a: &Vec<TextAttr>, b: &Vec<TextAttr>) -> (r: bool)
    ensures
        r == (a@ == b@),
{
    if a.len() != b.len() {
        return false;
    }
    let mut i: usize = 0;
    while i < a.len()
        invariant
            a@.len() == b@.len(),
            i <= a@.len(),
            forall|j: int| 0 <= j < i ==> a@[j] == b@[j],
        decreases a.len() - i,
    {
        if a[i] != b[i] {
            return false;
        }
        i += 1;
    }
    proof {
        assert(a@ =~= b@);
    }
    true
}

/// A copy of an attribute list.
pub fn copy_attrs(a: &Vec<TextAttr>) -> (r: Vec<TextAttr>)
    ensures
        r@ == a@,
{
    let mut out: Vec<TextAttr> = Vec::new();
    let mut i: usize = 0;
    while i < a.len()
        invariant
            i <= a@.len(),
            out@ == a@.take(i as int),
        decreases a.len() - i,
    {
        out.push(a[i]);
        proof {
            assert(a@.take(i + 1) == a@.take(i as int).push(a@[i as int]));
        }
        i += 1;
    }
    proof {
        assert(a@.take(a@.len() as int) == a@);
    }
    out
}

/// `o` with the style `s` appended to its document.
pub open spec fn styles_grew(o: AppState, f: AppState) -> bool {
    &&& f.project.asset == o.project.asset
    &&& f.project.layout == o.project.layout
    &&& f.project.frames == o.project.frames
    &&& f.project.styles@.drop_last() == o.project.styles@
    &&& f.project.styles@.len() == o.project.styles@.len() + 1
}

/// `f` is `o` after picking the style with colors `fg`, `bg` and
/// attributes `attrs`, announced with `label`: the first such style is
/// selected; otherwise one is added (ID from `id_base`, role
/// `style-variant`) unless the style limit is reached. The pencil is
/// picked in every case, and `r` says whether a style was selected.
pub open spec fn variant_selected(
    o: AppState,
    f: AppState,
    fg: Color,
    bg: Option<Color>,
    attrs: Seq<TextAttr>,
    id_base: Seq<char>,
    label: Seq<char>,
    r: bool,
) -> bool {
    let styles = o.project.styles@;
    &&& f.tool == Tool::Pencil
    &&& f.brush_char == o.brush_char
    &&& f.stamps == o.stamps
    &&& f.current_frame_index == o.current_frame_index
    &&& f.selection == o.selection
    &&& f.undo_stack == o.undo_stack
    &&& f.redo_stack == o.redo_stack
    &&& f.modal == o.modal
    &&& f.color_target == o.color_target
    &&& f.recent_extra_colors == o.recent_extra_colors
    &&& if exists|i: int| 0 <= i < styles.len() && style_matches(#[trigger] styles[i], fg, bg, attrs) {
        &&& r
        &&& f.project == o.project
        &&& f.dirty == o.dirty
        &&& style_matches(styles[f.current_style as int], fg, bg, attrs)
        &&& forall|j: int| 0 <= j < f.current_style ==> !style_matches(#[trigger] styles[j], fg, bg, attrs)
        &&& f.message@ == "Selected style ("@ + label + ")"@
    } else if styles.len() >= MAX_STYLES {
        &&& !r
        &&& f.project == o.project
        &&& f.current_style == o.current_style
        &&& f.dirty == o.dirty
        &&& f.message@ == "Cannot create style variant: style limit reached"@
    } else {
        let s = f.project.styles@.last();
        &&& r
        &&& styles_grew(o, f)
        &&& style_matches(s, fg, bg, attrs)
        &&& (!style_id_set(o.project).contains(id_base) ==> s.id@ == id_base)
        &&& (style_id_set(o.project).contains(id_base) ==> exists|i: nat| #[trigger] first_free(style_id_set(o.project), id_base + "-"@, 2, i)
            && s.id@ == numbered(id_base + "-"@, i))
        &&& s.role matches Some(role) && role@ == "style-variant"@
        &&& f.current_style == styles.len()
        &&& f.dirty
        &&& f.message@ == "Selected style ("@ + label + ")"@
    }
}

/// Picking a style variant is non-destructive: no painted cell changes,
/// every existing style keeps its fields, and the current style afterwards
/// has the requested colors and attributes unless the style limit stopped
/// it.
pub proof fn lemma_variant_pick_keeps_cells(
    o: AppState,
    f: AppState,
    fg: Color,
    bg: Option<Color>,
    attrs: Seq<TextAttr>,
    id_base: Seq<char>,
    label: Seq<char>,
    r: bool,
)
    requires
        o.wf(),
        variant_selected(o, f, fg, bg, attrs, id_base, label, r),
    ensures
        f.project.frames == o.project.frames,
        f.project.styles@.len() >= o.project.styles@.len(),
        forall|i: int| 0 <= i < o.project.styles@.len() ==> f.project.styles@[i] == o.project.styles@[i],
        r ==> style_matches(f.project.styles@[f.current_style as int], fg, bg, attrs),
{
    if f.project.styles@.len() == o.project.styles@.len() + 1 && f.project.styles@.drop_last() == o.project.styles@ {
        assert forall|i: int| 0 <= i < o.project.styles@.len() implies f.project.styles@[i] == o.project.styles@[i] by {
            assert(f.project.styles@.drop_last()[i] == f.project.styles@[i]);
        }
    }
}

/// The document's cells, stamps and history still name existing styles
/// after a style is added.
proof fn lemma_styled_grows(s: AppState, n: nat)
    requires
        s.wf(),
        n >= s.project.styles@.len(),
    ensures
        forall|f: int| 0 <= f < s.project.frames@.len() ==> cells_styled((#[trigger] s.project.frames@[f]).cells@, n),
        stamps_styled(s.stamps@, n),
        strokes_styled(s.undo_stack@, n),
        strokes_styled(s.redo_stack@, n),
        s.active_stroke matches Some(st) ==> changes_styled(st.changes@, n),
        s.moving_selection matches Some(m) ==> cells_styled(m.stamp.cells@, n),
{
    let m = s.project.styles@.len();
    assert forall|f: int| 0 <= f < s.project.frames@.len() implies cells_styled((#[trigger] s.project.frames@[f]).cells@, n) by {
        assert(cells_styled(s.project.frames@[f].cells@, m));
    }
    assert forall|i: int| 0 <= i < s.stamps@.len() implies cells_styled((#[trigger] s.stamps@[i]).cells@, n) by {
        assert(cells_styled(s.stamps@[i].cells@, m));
    }
    assert forall|i: int| 0 <= i < s.undo_stack@.len() implies changes_styled((#[trigger] s.undo_stack@[i]).changes@, n) by {
        assert(changes_styled(s.undo_stack@[i].changes@, m));
    }
    assert forall|i: int| 0 <= i < s.redo_stack@.len() implies changes_styled((#[trigger] s.redo_stack@[i]).changes@, n) by {
        assert(changes_styled(s.redo_stack@[i].changes@, m));
    }
}

/// The index of the first style with exactly these colors and attributes.
pub fn find_style(styles: &Vec<TerminalStyle>, fg: Color, bg: Option<Color>, attrs: &Vec<TextAttr>) -> (r: Option<usize>)
    ensures
        match r {
            Some(i) => i < styles@.len() && style_matches(styles@[i as int], fg, bg, attrs@) && forall|j: int|
                0 <= j < i ==> !style_matches(#[trigger] styles@[j], fg, bg, attrs@),
            None => forall|j: int| 0 <= j < styles@.len() ==> !style_matches(#[trigger] styles@[j], fg, bg, attrs@),
        },
{
    let mut i: usize = 0;
    while i < styles.len()
        invariant
            i <= styles@.len(),
            forall|j: int| 0 <= j < i ==> !style_matches(#[trigger] styles@[j], fg, bg, attrs@),
        decreases styles.len() - i,
    {
        let style = &styles[i];
        if style.fg == fg && same_opt_color(style.bg, bg) && attrs_equal(&style.attrs, attrs) {
            return Some(i);
        }
        i += 1;
    }
    None
}

/// What toggling `attr` does: the current style's variant with `attr`
/// switched is selected, or made when none exists.
pub open spec fn attr_toggled(o: AppState, f: AppState, attr: TextAttr) -> bool {
    &&& exists|r: bool| #[trigger] variant_selected(
        o,
        f,
        o.project.styles@[o.current_style as int].fg,
        o.project.styles@[o.current_style as int].bg,
        toggled_attrs(o.project.styles@[o.current_style as int].attrs@, attr),
        spec_variant_id_base(
            o.project.styles@[o.current_style as int].fg,
            o.project.styles@[o.current_style as int].bg,
            toggled_attrs(o.project.styles@[o.current_style as int].attrs@, attr),
        ),
        toggle_label(attr, o.project.styles@[o.current_style as int].attrs@.contains(attr)),
        r,
    )
}

/// What picking a sidebar palette color does: the variant of the current
/// style with that color as the target color is selected or made.
pub open spec fn palette_color_picked(o: AppState, f: AppState, palette_color: PaletteColor) -> bool {
    &&& f.recent_extra_colors == o.recent_extra_colors
    &&& f.tool == Tool::Pencil
    &&& exists|r: bool| #[trigger] variant_selected(
        o,
        f,
        picked_fg(o, palette_color.color),
        picked_bg(o, palette_color.color),
        o.project.styles@[o.current_style as int].attrs@,
        picked_base(o, palette_color.color, palette_color.id_base@),
        picked_label(o, palette_color.color, palette_color.name@),
        r,
    )
}

/// What picking a custom color does: like a palette pick, named by its
/// hexadecimal form; a new variant may add the color to the recent ones.
pub open spec fn custom_color_picked(o: AppState, f: AppState, color: Color, add_recent: bool) -> bool {
    &&& f.tool == Tool::Pencil
    &&& exists|r: bool| {
        &&& #[trigger] variant_selected(
            o,
            with_recent(f, o.recent_extra_colors),
            picked_fg(o, color),
            picked_bg(o, color),
            o.project.styles@[o.current_style as int].attrs@,
            picked_base(o, color, spec_color_id_base(color)),
            picked_label(o, color, spec_to_hex(color)),
            r,
        )
        &&& (!(r && add_recent) ==> f.recent_extra_colors == o.recent_extra_colors)
        &&& (r && add_recent ==> f.recent_extra_colors@ == recent_with(o.recent_extra_colors@, color))
    }
}

/// `recent` without `color`.
pub open spec fn without_color(recent: Seq<Color>, color: Color) -> Seq<Color> {
    recent.filter(|c: Color| c != color)
}

/// The recent colors after picking `color`: unchanged when the sidebar
/// palette shows it, else `color` first, then the others without it, at
/// most `MAX_RECENT_COLORS` in all.
pub open spec fn recent_with(recent: Seq<Color>, color: Color) -> Seq<Color> {
    if palette_colors().contains(color) {
        recent
    } else {
        let kept = without_color(recent, color);
        seq![color].add(kept).take(
            if kept.len() + 1 < MAX_RECENT_COLORS {
                (kept.len() + 1) as int
            } else {
                MAX_RECENT_COLORS as int
            },
        )
    }
}

impl AppState {
    /// Picks the pencil and the style with colors `fg`, `bg` and attributes
    /// `attrs`, adding it (ID from `id_base`) when there is none; says
    /// whether a style was selected.
    pub fn select_style_variant_with_base(
        &mut self,
        fg: Color,
        bg: Option<Color>,
        attrs: Vec<TextAttr>,
        id_base: &str,
        label: &str,
    ) -> (r: bool)
        requires
            old(self).wf(),
        ensures
            final(self).wf(),
            variant_selected(*old(self), *final(self), fg, bg, attrs@, id_base@, label@, r),
    {
        let ghost before = *self;
        self.tool = Tool::Pencil;
        match find_style(&self.project.styles, fg, bg, &attrs) {
            Some(i) => {
                self.current_style = i;
                let mut m = owned("Selected style (");
                push_str(&mut m, label);
                push_str(&mut m, ")");
                self.message = m;
                return true;
            },
            None => {},
        }
        if self.project.styles.len() >= MAX_STYLES {
            self.message = owned("Cannot create style variant: style limit reached");
            return false;
        }
        let id = unique_style_id(&self.project, id_base);
        proof {
            lemma_styled_grows(before, before.project.styles@.len() + 1);
        }
        self.project.styles.push(TerminalStyle { id, fg, bg, attrs, role: Some(owned("style-variant")) });
        self.current_style = self.project.styles.len() - 1;
        self.dirty = true;
        let mut m = owned("Selected style (");
        push_str(&mut m, label);
        push_str(&mut m, ")");
        self.message = m;
        proof {
            assert(self.project.styles@.drop_last() =~= before.project.styles@);
        }
        true
    }

    /// Picks the style with colors `fg`, `bg` and attributes `attrs`, adding
    /// it with an ID made from them when there is none.
    pub fn select_style_variant(&mut self, fg: Color, bg: Option<Color>, attrs: Vec<TextAttr>, label: &str) -> (r: bool)
        requires
            old(self).wf(),
        ensures
            final(self).wf(),
            variant_selected(*old(self), *final(self), fg, bg, attrs@, spec_variant_id_base(fg, bg, attrs@), label@, r),
    {
        let id_base = style_id_base_for_variant(fg, bg, &attrs);
        self.select_style_variant_with_base(fg, bg, attrs, id_base.as_str(), label)
    }

    /// Puts a custom color first among the recent colors (at most 24, each
    /// once), unless the sidebar palette already shows it.
    pub fn add_recent_extra_color(&mut self, color: Color)
        ensures
            final(self).recent_extra_colors@ == recent_with(old(self).recent_extra_colors@, color),
            *final(self) == with_recent(*old(self), final(self).recent_extra_colors),
    {
        if is_visible_palette_color(color) {
            return;
        }
        let mut kept: Vec<Color> = Vec::new();
        kept.push(color);
        let mut i: usize = 0;
        let ghost old_recent = self.recent_extra_colors@;
        while i < self.recent_extra_colors.len()
            invariant
                i <= old_recent.len(),
                self.recent_extra_colors@ == old_recent,
                kept@ == seq![color].add(without_color(old_recent.take(i as int), color)),
            decreases self.recent_extra_colors.len() - i,
        {
            let c = self.recent_extra_colors[i];
            proof {
                reveal(Seq::filter);
                assert(old_recent.take(i + 1).drop_last() == old_recent.take(i as int));
            }
            if c != color {
                kept.push(c);
            }
            i += 1;
        }
        proof {
            assert(old_recent.take(old_recent.len() as int) == old_recent);
        }
        kept.truncate(MAX_RECENT_COLORS);
        self.recent_extra_colors = kept;
    }

    /// Picks `color` for the current color target, keeping the other color
    /// and the attributes of the current style, and announces it with
    /// `label`; a custom color picked this way may join the recent colors.
    pub fn select_color(&mut self, color: Color, label: &str, id_base: &str, add_recent: bool)
        requires
            old(self).wf(),
        ensures
            final(self).wf(),
            exists|r: bool| {
                &&& #[trigger] variant_selected(
                    *old(self),
                    with_recent(*final(self), old(self).recent_extra_colors),
                    picked_fg(*old(self), color),
                    picked_bg(*old(self), color),
                    old(self).project.styles@[old(self).current_style as int].attrs@,
                    picked_base(*old(self), color, id_base@),
                    picked_label(*old(self), color, label@),
                    r,
                )
                &&& (!(r && add_recent) ==> final(self).recent_extra_colors == old(self).recent_extra_colors)
                &&& (r && add_recent ==> final(self).recent_extra_colors@ == recent_with(old(self).recent_extra_colors@, color))
            },
    {
        let ghost before = *self;
        let current = &self.project.styles[self.current_style];
        let current_fg = current.fg;
        let current_bg = current.bg;
        let attrs = copy_attrs(&current.attrs);
        let hex = color.to_hex();
        let (fg, bg, style_base) = match self.color_target {
            ColorTarget::Foreground => {
                let base = if current_bg.is_none() && attrs.len() == 0 {
                    owned(id_base)
                } else {
                    style_id_base_for_variant(color, current_bg, &attrs)
                };
                (color, current_bg, base)
            },
            ColorTarget::Background => {
                let bg = Some(color);
                (current_fg, bg, style_id_base_for_variant(current_fg, bg, &attrs))
            },
        };
        let mut full_label = owned(self.color_target.label());
        push_str(&mut full_label, " ");
        push_str(&mut full_label, label);
        push_str(&mut full_label, " (");
        push_str(&mut full_label, hex.as_str());
        push_str(&mut full_label, ")");
        let selected = self.select_style_variant_with_base(fg, bg, attrs, style_base.as_str(), full_label.as_str());
        let ghost after_select = *self;
        if selected && add_recent {
            self.add_recent_extra_color(color);
        }
        proof {
            assert(with_recent(*self, before.recent_extra_colors) == after_select);
            assert(variant_selected(
                before,
                with_recent(*self, before.recent_extra_colors),
                picked_fg(before, color),
                picked_bg(before, color),
                before.project.styles@[before.current_style as int].attrs@,
                picked_base(before, color, id_base@),
                picked_label(before, color, label@),
                selected,
            ));
        }
    }

    /// Picks a sidebar palette color for the current color target.
    pub fn select_palette_color(&mut self, palette_color: PaletteColor)
        requires
            old(self).wf(),
        ensures
            final(self).wf(),
            palette_color_picked(*old(self), *final(self), palette_color),
    {
        self.select_color(palette_color.color, palette_color.name, palette_color.id_base, false);
    }

    /// Picks a custom color for the current color target, named by its
    /// hexadecimal form; it may join the recent colors.
    pub fn select_custom_color(&mut self, color: Color, add_recent: bool)
        requires
            old(self).wf(),
        ensures
            final(self).wf(),
            custom_color_picked(*old(self), *final(self), color, add_recent),
    {
        let hex = color.to_hex();
        let base = style_id_base_for_color(color);
        self.select_color(color, hex.as_str(), base.as_str(), add_recent);
    }

    /// The current style's color that palette picks edit.
    pub fn active_target_color(&self) -> (r: Option<Color>)
        requires
            self.wf(),
        ensures
            r == match self.color_target {
                ColorTarget::Foreground => Some(self.project.styles@[self.current_style as int].fg),
                ColorTarget::Background => self.project.styles@[self.current_style as int].bg,
            },
    {
        let style = &self.project.styles[self.current_style];
        match self.color_target {
            ColorTarget::Foreground => Some(style.fg),
            ColorTarget::Background => style.bg,
        }
    }

    /// The color the RGB dialog starts from: the target color, black for a
    /// transparent background.
    pub fn rgb_input_base_color(&self) -> (r: Color)
        requires
            self.wf(),
        ensures
            r == match self.color_target {
                ColorTarget::Foreground => self.project.styles@[self.current_style as int].fg,
                ColorTarget::Background => match self.project.styles@[self.current_style as int].bg {
                    Some(c) => c,
                    None => Color { r: 0, g: 0, b: 0 },
                },
            },
    {
        let style = &self.project.styles[self.current_style];
        match self.color_target {
            ColorTarget::Foreground => style.fg,
            ColorTarget::Background => match style.bg {
                Some(c) => c,
                None => Color { r: 0, g: 0, b: 0 },
            },
        }
    }

    /// Turns `attr` on or off by picking the style variant with the other
    /// attributes of the current style; the current style is not changed.
    pub fn toggle_current_attr(&mut self, attr: TextAttr)
        requires
            old(self).wf(),
        ensures
            final(self).wf(),
            attr_toggled(*old(self), *final(self), attr),
    {
        let ghost before = *self;
        let current = &self.project.styles[self.current_style];
        let fg = current.fg;
        let bg = current.bg;
        let was_enabled = attrs_contain(&current.attrs, attr);
        let mut attrs: Vec<TextAttr> = Vec::new();
        let ghost cur_attrs = current.attrs@;
        if was_enabled {
            let mut i: usize = 0;
            while i < current.attrs.len()
                invariant
                    i <= cur_attrs.len(),
                    current.attrs@ == cur_attrs,
                    attrs@ == without(cur_attrs.take(i as int), attr),
                decreases current.attrs.len() - i,
            {
                let a = current.attrs[i];
                proof {
                    reveal(Seq::filter);
                    assert(cur_attrs.take(i + 1).drop_last() == cur_attrs.take(i as int));
                }
                if a != attr {
                    attrs.push(a);
                }
                i += 1;
            }
            proof {
                assert(cur_attrs.take(cur_attrs.len() as int) == cur_attrs);
            }
        } else {
            attrs = copy_attrs(&current.attrs);
            attrs.push(attr);
        }
        let attrs = normalize_attrs(attrs);
        let mut label = owned(attr_label(attr));
        push_str(&mut label, " ");
        push_str(&mut label, if was_enabled { "off" } else { "on" });
        let r = self.select_style_variant(fg, bg, attrs, label.as_str());
        proof {
            assert(variant_selected(
                before,
                *self,
                fg,
                bg,
                toggled_attrs(cur_attrs, attr),
                spec_variant_id_base(fg, bg, toggled_attrs(cur_attrs, attr)),
                toggle_label(attr, was_enabled),
                r,
            ));
        }
    }

    /// Selects the previous style, wrapping to the last.
    pub fn previous_style(&mut self)
        requires
            old(self).wf(),
        ensures
            final(self).wf(),
            final(self).current_style == if old(self).current_style == 0 {
                (old(self).project.styles@.len() - 1) as usize
            } else {
                (old(self).current_style - 1) as usize
            },
            final(self).project == old(self).project,
            final(self).message == old(self).message,
            *final(self) == (AppState { current_style: final(self).current_style, ..*old(self) }),
    {
        if self.current_style == 0 {
            self.current_style = self.project.styles.len() - 1;
        } else {
            self.current_style -= 1;
        }
    }

    /// Selects the next style, wrapping to the first.
    pub fn next_style(&mut self)
        requires
            old(self).wf(),
        ensures
            final(self).wf(),
            final(self).current_style == if old(self).current_style + 1 < old(self).project.styles@.len() {
                old(self).current_style + 1
            } else {
                0
            },
            final(self).project == old(self).project,
            final(self).message == old(self).message,
            *final(self) == (AppState { current_style: final(self).current_style, ..*old(self) }),
    {
        if self.current_style >= self.project.styles.len() - 1 {
            self.current_style = 0;
        } else {
            self.current_style = self.current_style + 1;
        }
    }
}

/// The attributes after toggling `attr`, in the order of the choices.
pub open spec fn toggled_attrs(attrs: Seq<TextAttr>, attr: TextAttr) -> Seq<TextAttr> {
    spec_normalized_attrs(if attrs.contains(attr) { without(attrs, attr) } else { attrs.push(attr) })
}

/// The attributes other than `attr`, in order.
pub open spec fn without(attrs: Seq<TextAttr>, attr: TextAttr) -> Seq<TextAttr> {
    attrs.filter(|a: TextAttr| a != attr)
}

/// `Bold on`, `Bold off` and the like.
pub open spec fn toggle_label(attr: TextAttr, was_enabled: bool) -> Seq<char> {
    attr_label_text(attr) + " "@ + if was_enabled { "off"@ } else { "on"@ }
}

/// The foreground a pick of `color` gives the current style.
pub open spec fn picked_fg(o: AppState, color: Color) -> Color {
    match o.color_target {
        ColorTarget::Foreground => color,
        ColorTarget::Background => o.project.styles@[o.current_style as int].fg,
    }
}

/// The background a pick of `color` gives the current style.
pub open spec fn picked_bg(o: AppState, color: Color) -> Option<Color> {
    match o.color_target {
        ColorTarget::Foreground => o.project.styles@[o.current_style as int].bg,
        ColorTarget::Background => Some(color),
    }
}

/// The style ID base a pick of `color` uses: the palette's own base for a
/// plain foreground pick, else one made from the colors and attributes.
pub open spec fn picked_base(o: AppState, color: Color, id_base: Seq<char>) -> Seq<char> {
    let cur = o.project.styles@[o.current_style as int];
    match o.color_target {
        ColorTarget::Foreground => if cur.bg is None && cur.attrs@.len() == 0 {
            id_base
        } else {
            spec_variant_id_base(color, cur.bg, cur.attrs@)
        },
        ColorTarget::Background => spec_variant_id_base(cur.fg, Some(color), cur.attrs@),
    }
}

/// `Foreground red (#E04949)` and the like.
pub open spec fn picked_label(o: AppState, color: Color, label: Seq<char>) -> Seq<char> {
    let target = match o.color_target {
        ColorTarget::Foreground => "Foreground"@,
        ColorTarget::Background => "Background"@,
    };
    target + " "@ + label + " ("@ + spec_to_hex(color) + ")"@
}

/// `s` with palette picks editing `target`.
pub open spec fn with_target(s: AppState, target: ColorTarget) -> AppState {
    AppState { color_target: target, ..s }
}

/// `s` with its recent colors replaced by `recent`.
pub open spec fn with_recent(s: AppState, recent: Vec<Color>) -> AppState {
    AppState { recent_extra_colors: recent, ..s }
}

/// The attribute's caption.
pub open spec fn attr_label_text(attr: TextAttr) -> Seq<char> {
    match attr {
        TextAttr::Bold => "Bold"@,
        TextAttr::Dim => "Dim"@,
        TextAttr::Italic => "Italic"@,
        TextAttr::Underline => "Underline"@,
        TextAttr::Reverse => "Reverse"@,
    }
}

/// Normalizing keeps exactly the attributes the list holds.
proof fn lemma_normalized_contains(attrs: Seq<TextAttr>)
    ensures
        forall|a: TextAttr| #[trigger] spec_normalized_attrs(attrs).contains(a) == attrs.contains(a),
{
    let choices = crate::editor::palette::attr_choices();
    let pred = |b: TextAttr| attrs.contains(b);
    choices.filter_lemma(pred);
    assert forall|a: TextAttr| #[trigger] spec_normalized_attrs(attrs).contains(a) == attrs.contains(a) by {
        let k: int = match a {
            TextAttr::Bold => 0,
            TextAttr::Dim => 1,
            TextAttr::Italic => 2,
            TextAttr::Underline => 3,
            TextAttr::Reverse => 4,
        };
        assert(choices[k] == a);
        if attrs.contains(a) {
            assert(pred(choices[k]));
            choices.lemma_filter_contains(pred, k);
        }
        if spec_normalized_attrs(attrs).contains(a) {
            let j = choose|j: int| 0 <= j < choices.filter(pred).len() && choices.filter(pred)[j] == a;
            assert(pred(choices.filter(pred)[j]));
        }
    }
}

/// Lists holding the same attributes normalize alike.
proof fn lemma_normalized_by_members(x: Seq<TextAttr>, y: Seq<TextAttr>)
    requires
        forall|a: TextAttr| x.contains(a) == y.contains(a),
    ensures
        spec_normalized_attrs(x) == spec_normalized_attrs(y),
{
    assert((|a: TextAttr| x.contains(a)) =~= (|a: TextAttr| y.contains(a)));
}

/// The attributes `without` keeps are those other than `attr`.
proof fn lemma_without_contains(attrs: Seq<TextAttr>, attr: TextAttr)
    ensures
        forall|x: TextAttr| #[trigger] without(attrs, attr).contains(x) == (attrs.contains(x) && x != attr),
    decreases attrs.len(),
{
    reveal(Seq::filter);
    if attrs.len() > 0 {
        let rest = attrs.drop_last();
        let last = attrs.last();
        lemma_without_contains(rest, attr);
        lemma_push_contains(rest, last);
        assert(rest.push(last) =~= attrs);
        lemma_push_contains(without(rest, attr), last);
        if last != attr {
            assert(without(attrs, attr) == without(rest, attr).push(last));
        } else {
            assert(without(attrs, attr) == without(rest, attr));
        }
    } else {
        assert(without(attrs, attr).len() == 0);
    }
}

/// Pushing adds exactly the pushed attribute.
proof fn lemma_push_contains(attrs: Seq<TextAttr>, attr: TextAttr)
    ensures
        forall|x: TextAttr| #[trigger] attrs.push(attr).contains(x) == (attrs.contains(x) || x == attr),
{
    assert forall|x: TextAttr| #[trigger] attrs.push(attr).contains(x) == (attrs.contains(x) || x == attr) by {
        assert(attrs.push(attr)[attrs.len() as int] == attr);
        if attrs.contains(x) {
            let k = choose|k: int| 0 <= k < attrs.len() && attrs[k] == x;
            assert(attrs.push(attr)[k] == x);
        }
        if attrs.push(attr).contains(x) {
            let j = choose|j: int| 0 <= j < attrs.push(attr).len() && attrs.push(attr)[j] == x;
            if j < attrs.len() {
                assert(attrs[j] == x);
            }
        }
    }
}

/// Toggling flips whether the attribute is held and keeps the others.
proof fn lemma_toggled_contains(attrs: Seq<TextAttr>, attr: TextAttr)
    ensures
        forall|x: TextAttr| #[trigger] toggled_attrs(attrs, attr).contains(x) == if x == attr {
            !attrs.contains(attr)
        } else {
            attrs.contains(x)
        },
{
    lemma_without_contains(attrs, attr);
    lemma_push_contains(attrs, attr);
    if attrs.contains(attr) {
        lemma_normalized_contains(without(attrs, attr));
    } else {
        lemma_normalized_contains(attrs.push(attr));
    }
}

/// Toggling an attribute twice gives the normalized attributes back.
proof fn lemma_toggled_twice(attrs: Seq<TextAttr>, attr: TextAttr)
    ensures
        toggled_attrs(toggled_attrs(attrs, attr), attr) == spec_normalized_attrs(attrs),
{
    let once = toggled_attrs(attrs, attr);
    lemma_toggled_contains(attrs, attr);
    lemma_without_contains(once, attr);
    lemma_push_contains(once, attr);
    let twice_raw = if once.contains(attr) { without(once, attr) } else { once.push(attr) };
    assert forall|x: TextAttr| #[trigger] twice_raw.contains(x) == attrs.contains(x) by {
        assert(once.contains(x) == if x == attr { !attrs.contains(attr) } else { attrs.contains(x) });
    }
    lemma_normalized_by_members(twice_raw, attrs);
}

/// Toggling the same attribute twice comes back to the style one started
/// from, when that style is the first with its colors and attributes, its
/// attributes are in normal order, and the style limit leaves room.
pub proof fn lemma_toggle_twice_returns(o: AppState, m: AppState, f: AppState, attr: TextAttr)
    requires
        o.wf(),
        m.wf(),
        attr_toggled(o, m, attr),
        attr_toggled(m, f, attr),
        o.project.styles@.len() < MAX_STYLES,
        o.project.styles@[o.current_style as int].attrs@ == spec_normalized_attrs(o.project.styles@[o.current_style as int].attrs@),
        forall|j: int| 0 <= j < o.current_style ==> !style_matches(
            #[trigger] o.project.styles@[j],
            o.project.styles@[o.current_style as int].fg,
            o.project.styles@[o.current_style as int].bg,
            o.project.styles@[o.current_style as int].attrs@,
        ),
    ensures
        f.current_style == o.current_style,
        f.project == m.project,
{
    let s0 = o.project.styles@[o.current_style as int];
    let a1 = toggled_attrs(s0.attrs@, attr);
    let r1 = choose|r: bool| #[trigger] variant_selected(
        o,
        m,
        s0.fg,
        s0.bg,
        a1,
        spec_variant_id_base(s0.fg, s0.bg, a1),
        toggle_label(attr, s0.attrs@.contains(attr)),
        r,
    );
    lemma_variant_pick_keeps_cells(o, m, s0.fg, s0.bg, a1, spec_variant_id_base(s0.fg, s0.bg, a1),
        toggle_label(attr, s0.attrs@.contains(attr)), r1);
    let s1 = m.project.styles@[m.current_style as int];
    assert(style_matches(s1, s0.fg, s0.bg, a1));
    lemma_toggled_twice(s0.attrs@, attr);
    let a2 = toggled_attrs(s1.attrs@, attr);
    assert(a2 == s0.attrs@);
    let r2 = choose|r: bool| #[trigger] variant_selected(
        m,
        f,
        s1.fg,
        s1.bg,
        a2,
        spec_variant_id_base(s1.fg, s1.bg, a2),
        toggle_label(attr, s1.attrs@.contains(attr)),
        r,
    );
    let c0 = o.current_style as int;
    assert(m.project.styles@[c0] == s0);
    assert(style_matches(m.project.styles@[c0], s1.fg, s1.bg, a2));
    let ms = m.project.styles@;
    assert(exists|i: int| 0 <= i < ms.len() && style_matches(#[trigger] ms[i], s1.fg, s1.bg, a2));
    if f.current_style < c0 {
        let j = f.current_style as int;
        assert(m.project.styles@[j] == o.project.styles@[j]);
        assert(!style_matches(o.project.styles@[j], s0.fg, s0.bg, s0.attrs@));
    }
    if f.current_style > c0 {
        assert(!style_matches(ms[c0], s1.fg, s1.bg, a2));
    }
}

} // verus!
