use std::collections::BTreeSet;
use vstd::prelude::*;

use crate::editor::controls::{ModalAction, TopAction};
use crate::editor::geometry::{border_text, selection_border_symbol, spec_cell_rect_border, CellRect, ScreenRect};
use crate::editor::history::opt_cell;
use crate::editor::selection::{shape_points, shape_points_ok};
use crate::editor::state::{AppState, ButtonHit, Modal};
use crate::model::{CellKey, PaintedCell};
use crate::text::{chars_of, decimal_string, decimal_text, owned, push_str};

verus! {

broadcast use vstd::std_specs::btree::group_btree_axioms;

/// What a canvas cell shows, before styling.
#[derive(Debug, Clone, Copy, PartialEq, Eq, Structural)]
pub enum CellLook {
    /// The brush over the line or rectangle being dragged out.
    ShapePreview,
    /// A cell of the selection being moved, at its new place.
    MovingPreview(PaintedCell),
    /// A painted cell of the current frame.
    Painted(PaintedCell),
    /// A cell of the previous frame, shown dimmed under a transparent one.
    Onion(PaintedCell),
    /// A transparent cell.
    Empty,
}

/// A canvas cell as drawn: what it shows, whether the mouse is over it, and
/// the selection border symbol drawn over it, if any.
#[derive(Debug, Clone, Copy)]
pub struct CellView {
    pub look: CellLook,
    pub hovered: bool,
    pub border: Option<&'static str>,
}

/// The cell of the moving selection that lands on `(x, y)`.
pub open spec fn moving_cell_at(s: AppState, x: u16, y: u16) -> Option<PaintedCell> {
    match s.moving_selection {
        Some(m) => if x >= m.destination.0 && y >= m.destination.1 && x - m.destination.0 < m.stamp.width && y
            - m.destination.1 < m.stamp.height {
            opt_cell(m.stamp.cells@, ((y - m.destination.1) as u16, (x - m.destination.0) as u16))
        } else {
            None
        },
        None => None,
    }
}

/// The rectangle whose border is drawn: where the moving selection would
/// land, else the selection.
pub open spec fn outlined_rect(s: AppState) -> Option<CellRect> {
    match s.moving_selection {
        Some(m) => Some(CellRect { x: m.destination.0, y: m.destination.1, width: m.source.width, height: m.source.height }),
        None => s.selection,
    }
}

/// What the canvas cell `(x, y)` shows: the shape preview first, then the
/// moving selection, the current frame, the previous frame when onion
/// skin is on, and transparency.
pub open spec fn cell_look(s: AppState, shape: Option<Set<(u16, u16)>>, x: u16, y: u16) -> CellLook {
    if shape matches Some(pts) && pts.contains((x, y)) {
        CellLook::ShapePreview
    } else if moving_cell_at(s, x, y) is Some {
        CellLook::MovingPreview(moving_cell_at(s, x, y)->0)
    } else if opt_cell(s.cells(), (y, x)) is Some {
        CellLook::Painted(opt_cell(s.cells(), (y, x))->0)
    } else if s.onion_skin && s.current_frame_index > 0 && opt_cell(
        s.project.frames@[s.current_frame_index - 1].cells@,
        (y, x),
    ) is Some {
        CellLook::Onion(opt_cell(s.project.frames@[s.current_frame_index - 1].cells@, (y, x))->0)
    } else {
        CellLook::Empty
    }
}

/// What a canvas cell shows is layered: the shape being dragged out covers
/// everything; else a cell of the selection being moved; else the cell the
/// current frame has painted there.
pub proof fn lemma_cell_look_layers(s: AppState, shape: Option<Set<(u16, u16)>>, x: u16, y: u16)
    ensures
        (shape matches Some(pts) && pts.contains((x, y))) ==> cell_look(s, shape, x, y) == CellLook::ShapePreview,
        !(shape matches Some(pts) && pts.contains((x, y))) && moving_cell_at(s, x, y) is Some ==> cell_look(s, shape, x, y)
            == CellLook::MovingPreview(moving_cell_at(s, x, y)->0),
        !(shape matches Some(pts) && pts.contains((x, y))) && moving_cell_at(s, x, y) is None
            && s.project.frames@[s.current_frame_index as int].cells@.contains_key((y, x)) ==> cell_look(s, shape, x, y)
            == CellLook::Painted(s.project.frames@[s.current_frame_index as int].cells@[(y, x)]),
{
}

/// The frame shown faintly under transparent cells is the one right before
/// the current frame: with onion skin on past the first frame, a canvas
/// cell that no shape preview, moving selection or painted cell of the
/// current frame covers shows, dimmed, the cell that frame
/// `current_frame_index - 1` has there, and is empty when that frame has
/// none there. With onion skin off, or on the first frame, such a cell is
/// empty.
pub proof fn lemma_onion_shows_previous_frame(s: AppState, shape: Option<Set<(u16, u16)>>, x: u16, y: u16)
    requires
        !(shape matches Some(pts) && pts.contains((x, y))),
        moving_cell_at(s, x, y) is None,
        !s.project.frames@[s.current_frame_index as int].cells@.contains_key((y, x)),
    ensures
        s.onion_skin && s.current_frame_index > 0 && s.project.frames@[s.current_frame_index - 1].cells@.contains_key(
            (y, x),
        ) ==> cell_look(s, shape, x, y) == CellLook::Onion(s.project.frames@[s.current_frame_index - 1].cells@[(y, x)]),
        s.onion_skin && s.current_frame_index > 0 && !s.project.frames@[s.current_frame_index - 1].cells@.contains_key(
            (y, x),
        ) ==> cell_look(s, shape, x, y) == CellLook::Empty,
        !(s.onion_skin && s.current_frame_index > 0) ==> cell_look(s, shape, x, y) == CellLook::Empty,
{
}

impl AppState {
    /// The points of the shape being dragged out, if any.
    pub fn shape_preview(&self) -> (r: Option<BTreeSet<(u16, u16)>>)
        requires
            self.wf(),
        ensures
            match self.shape_drag {
                Some(d) => r matches Some(pts) && shape_points_ok(d.tool, d.start, d.end, pts@),
                None => r is None,
            },
    {
        match self.shape_drag {
            Some(d) => Some(shape_points(d.tool, d.start, d.end)),
            None => None,
        }
    }

    /// How the canvas cell `(x, y)` is drawn, given the shape preview's
    /// points.
    pub fn cell_view(&self, shape: &Option<BTreeSet<(u16, u16)>>, x: u16, y: u16) -> (r: CellView)
        requires
            self.wf(),
            x < u16::MAX,
            y < u16::MAX,
        ensures
            r.look == cell_look(
                *self,
                match shape {
                    Some(pts) => Some(pts@),
                    None => None::<Set<(u16, u16)>>,
                },
                x,
                y,
            ),
            ({
                let i = self.current_frame_index as int;
                let uncovered = !(shape matches Some(pts) && pts@.contains((x, y))) && moving_cell_at(*self, x, y) is None
                    && !self.project.frames@[i].cells@.contains_key((y, x));
                &&& uncovered && self.onion_skin && i > 0 && self.project.frames@[i - 1].cells@.contains_key((y, x))
                    ==> r.look == CellLook::Onion(self.project.frames@[i - 1].cells@[(y, x)])
                &&& uncovered && !(self.onion_skin && i > 0 && self.project.frames@[i - 1].cells@.contains_key((y, x)))
                    ==> r.look == CellLook::Empty
            }),
            r.hovered == (self.hover.canvas_cell == Some((y, x))),
            (r.border is Some) == (outlined_rect(*self) matches Some(rect) && spec_cell_rect_border(rect, x, y)),
            r.border matches Some(sym) ==> (outlined_rect(*self) matches Some(rect) && sym@ == border_text(rect, x, y)),
    {
        let in_shape = match shape {
            Some(pts) => pts.contains(&(x, y)),
            None => false,
        };
        let moving = self.moving_cell(x, y);
        let look = if in_shape {
            CellLook::ShapePreview
        } else if moving.is_some() {
            CellLook::MovingPreview(moving.unwrap())
        } else {
            match self.cell_at((y, x)) {
                Some(c) => CellLook::Painted(c),
                None => {
                    let onion = if self.onion_skin && self.current_frame_index > 0 {
                        match self.project.frames[self.current_frame_index - 1].cells.get(&(y, x)) {
                            Some(c) => Some(*c),
                            None => None,
                        }
                    } else {
                        None
                    };
                    match onion {
                        Some(c) => CellLook::Onion(c),
                        None => CellLook::Empty,
                    }
                },
            }
        };
        let hovered = match self.hover.canvas_cell {
            Some(k) => k.0 == y && k.1 == x,
            None => false,
        };
        let outline = match &self.moving_selection {
            Some(m) => Some(CellRect { x: m.destination.0, y: m.destination.1, width: m.source.width, height: m.source.height }),
            None => self.selection,
        };
        let border = match outline {
            Some(rect) => if rect.is_border(x, y) {
                Some(selection_border_symbol(rect, x, y))
            } else {
                None
            },
            None => None,
        };
        CellView { look, hovered, border }
    }

    /// The cell of the moving selection that lands on `(x, y)`.
    fn moving_cell(&self, x: u16, y: u16) -> (r: Option<PaintedCell>)
        ensures
            r == moving_cell_at(*self, x, y),
    {
        match &self.moving_selection {
            Some(m) => {
                if x >= m.destination.0 && y >= m.destination.1 && x - m.destination.0 < m.stamp.width && y
                    - m.destination.1 < m.stamp.height {
                    match m.stamp.cells.get(&(y - m.destination.1, x - m.destination.0)) {
                        Some(c) => Some(*c),
                        None => None,
                    }
                } else {
                    None
                }
            },
            None => None,
        }
    }
}

/// How many cells a dialog button's caption takes.
pub open spec fn modal_label_len(a: ModalAction) -> int {
    match a {
        ModalAction::Confirm => 2,
        ModalAction::Cancel => 6,
        ModalAction::RgbInput => 3,
        ModalAction::ExportText => 4,
        ModalAction::ExportAnsi => 4,
        ModalAction::SaveAndQuit => 4,
        ModalAction::Discard => 7,
    }
}

/// The width of a dialog button: its caption with two cells of padding on
/// each side.
pub open spec fn modal_button_width(a: ModalAction) -> int {
    modal_label_len(a) + 4
}

/// The widths of a row of dialog buttons, without the gaps.
pub open spec fn buttons_width(actions: Seq<ModalAction>) -> int
    decreases actions.len(),
{
    if actions.len() == 0 {
        0
    } else {
        buttons_width(actions.drop_last()) + modal_button_width(actions.last())
    }
}

/// `a - b`, or zero when `b` is larger.
pub open spec fn sat_sub(a: int, b: int) -> int {
    if a > b {
        a - b
    } else {
        0
    }
}

/// `a + b`, at most `u16::MAX`.
pub open spec fn sat_add16(a: int, b: int) -> int {
    if a + b <= u16::MAX {
        a + b
    } else {
        u16::MAX as int
    }
}

/// The column of the `i`th of a row of dialog buttons centered on the
/// bottom border of `area`, one cell apart.
pub open spec fn button_x(area: ScreenRect, actions: Seq<ModalAction>, i: int) -> int
    decreases i,
{
    if i <= 0 {
        area.x + sat_sub(area.width as int, sat_add16(buttons_width(actions), actions.len() - 1)) / 2
    } else {
        sat_add16(button_x(area, actions, i - 1), modal_button_width(actions[i - 1]) + 1)
    }
}

/// The buttons a dialog shows.
pub open spec fn modal_actions_of(m: Modal) -> Seq<ModalAction> {
    match m {
        Modal::QuitConfirm => seq![ModalAction::SaveAndQuit, ModalAction::Discard, ModalAction::Cancel],
        Modal::ExportMenu => seq![ModalAction::ExportText, ModalAction::ExportAnsi, ModalAction::Cancel],
        Modal::ColorPicker => seq![ModalAction::RgbInput, ModalAction::Cancel],
        Modal::ToolMenu => Seq::empty(),
        _ => seq![ModalAction::Confirm, ModalAction::Cancel],
    }
}

/// The buttons a dialog shows.
pub fn modal_actions(m: &Modal) -> (r: Vec<ModalAction>)
    ensures
        r@ == modal_actions_of(*m),
{
    match m {
        Modal::QuitConfirm => vec![ModalAction::SaveAndQuit, ModalAction::Discard, ModalAction::Cancel],
        Modal::ExportMenu => vec![ModalAction::ExportText, ModalAction::ExportAnsi, ModalAction::Cancel],
        Modal::ColorPicker => vec![ModalAction::RgbInput, ModalAction::Cancel],
        Modal::ToolMenu => Vec::new(),
        _ => vec![ModalAction::Confirm, ModalAction::Cancel],
    }
}

/// The width of a dialog button.
fn modal_button_width_of(a: ModalAction) -> (r: u16)
    ensures
        r == modal_button_width(a),
{
    match a {
        ModalAction::Confirm => 6,
        ModalAction::Cancel => 10,
        ModalAction::RgbInput => 7,
        ModalAction::ExportText => 8,
        ModalAction::ExportAnsi => 8,
        ModalAction::SaveAndQuit => 8,
        ModalAction::Discard => 11,
    }
}

/// Where a dialog drawn at `area` puts its buttons: centered on the row
/// above its bottom border, one cell apart; none when the dialog is too
/// small.
pub fn modal_button_layout(area: ScreenRect, actions: &Vec<ModalAction>) -> (r: Vec<ButtonHit<ModalAction>>)
    requires
        area.x + area.width <= u16::MAX,
        area.y + area.height <= u16::MAX,
        buttons_width(actions@) + actions@.len() <= u16::MAX,
    ensures
        actions@.len() == 0 || area.width < 4 || area.height < 3 ==> r@.len() == 0,
        !(actions@.len() == 0 || area.width < 4 || area.height < 3) ==> {
            &&& r@.len() == actions@.len()
            &&& forall|i: int|
                0 <= i < r@.len() ==> {
                    &&& (#[trigger] r@[i]).action == actions@[i]
                    &&& r@[i].area.x == button_x(area, actions@, i)
                    &&& r@[i].area.y == area.y + sat_sub(area.height as int, 2)
                    &&& r@[i].area.width == modal_button_width(actions@[i])
                    &&& r@[i].area.height == 1
                }
        },
{
    let mut out: Vec<ButtonHit<ModalAction>> = Vec::new();
    if actions.len() == 0 || area.width < 4 || area.height < 3 {
        return out;
    }
    let mut total: u16 = 0;
    let mut k: usize = 0;
    while k < actions.len()
        invariant
            k <= actions@.len(),
            total == buttons_width(actions@.take(k as int)),
            buttons_width(actions@) + actions@.len() <= u16::MAX,
        decreases actions.len() - k,
    {
        proof {
            assert(actions@.take(k + 1).drop_last() == actions@.take(k as int));
            lemma_buttons_width_prefix(actions@, k as int + 1);
        }
        total = total + modal_button_width_of(actions[k]);
        k += 1;
    }
    proof {
        assert(actions@.take(actions@.len() as int) == actions@);
    }
    let total = total.saturating_add((actions.len() - 1) as u16);
    let mut x = area.x + area.width.saturating_sub(total) / 2;
    let y = area.y + area.height.saturating_sub(2);
    let mut i: usize = 0;
    while i < actions.len()
        invariant
            i <= actions@.len(),
            actions@.len() > 0,
            area.x + area.width <= u16::MAX,
            area.width >= 4,
            area.height >= 3,
            total == sat_add16(buttons_width(actions@), actions@.len() - 1),
            y == area.y + sat_sub(area.height as int, 2),
            x == button_x(area, actions@, i as int),
            out@.len() == i,
            forall|j: int|
                0 <= j < i ==> {
                    &&& (#[trigger] out@[j]).action == actions@[j]
                    &&& out@[j].area.x == button_x(area, actions@, j)
                    &&& out@[j].area.y == area.y + sat_sub(area.height as int, 2)
                    &&& out@[j].area.width == modal_button_width(actions@[j])
                    &&& out@[j].area.height == 1
                },
        decreases actions.len() - i,
    {
        let action = actions[i];
        let width = modal_button_width_of(action);
        out.push(ButtonHit { action, area: ScreenRect { x, y, width, height: 1 } });
        x = x.saturating_add(width + 1);
        i += 1;
    }
    out
}

/// A prefix of a row of buttons is no wider than the row.
proof fn lemma_buttons_width_prefix(actions: Seq<ModalAction>, k: int)
    requires
        0 <= k <= actions.len(),
    ensures
        buttons_width(actions.take(k)) <= buttons_width(actions),
    decreases actions.len() - k,
{
    if k < actions.len() {
        lemma_buttons_width_prefix(actions, k + 1);
        assert(actions.take(k + 1).drop_last() =~= actions.take(k));
        assert(buttons_width(actions.take(k + 1)) == buttons_width(actions.take(k)) + modal_button_width(
            actions.take(k + 1).last(),
        ));
    } else {
        assert(actions.take(k) =~= actions);
    }
}

/// How many cells a top-bar button takes: its caption in brackets.
pub open spec fn top_button_width(a: TopAction) -> int {
    2 + match a {
        TopAction::PreviousFrame => 4int,
        TopAction::NextFrame => 4,
        TopAction::DuplicateFrame => 3,
        TopAction::BlankFrame => 5,
        TopAction::ToggleOnionSkin => 5,
        TopAction::Save => 4,
        TopAction::SaveAs => 7,
        TopAction::ExportText => 6,
        TopAction::Quit => 4,
    }
}

/// The top-bar buttons from the right: the order they are placed in.
pub open spec fn top_actions_from_right() -> Seq<TopAction> {
    seq![
        TopAction::Quit,
        TopAction::ExportText,
        TopAction::SaveAs,
        TopAction::Save,
        TopAction::ToggleOnionSkin,
        TopAction::BlankFrame,
        TopAction::DuplicateFrame,
        TopAction::NextFrame,
        TopAction::PreviousFrame,
    ]
}

/// The top bar after placing `actions` from the right edge of `inner`: the
/// free column at the left of the placed buttons and the buttons placed,
/// rightmost first. A button that does not fit with a one-cell gap is left
/// out.
pub open spec fn top_placed(inner: ScreenRect, actions: Seq<TopAction>) -> (int, Seq<ButtonHit<TopAction>>)
    decreases actions.len(),
{
    if actions.len() == 0 {
        (inner.x + inner.width, Seq::empty())
    } else {
        let (x, placed) = top_placed(inner, actions.drop_last());
        let a = actions.last();
        let w = top_button_width(a);
        if w + 1 > x - inner.x {
            (x, placed)
        } else {
            (
                sat_sub(x - w, 1),
                placed.push(ButtonHit { action: a, area: ScreenRect { x: (x - w) as u16, y: inner.y, width: w as u16, height: 1 } }),
            )
        }
    }
}

/// The width of a top-bar button.
fn top_button_width_of(a: TopAction) -> (r: u16)
    ensures
        r == top_button_width(a),
{
    match a {
        TopAction::PreviousFrame => 6,
        TopAction::NextFrame => 6,
        TopAction::DuplicateFrame => 5,
        TopAction::BlankFrame => 7,
        TopAction::ToggleOnionSkin => 7,
        TopAction::Save => 6,
        TopAction::SaveAs => 9,
        TopAction::ExportText => 8,
        TopAction::Quit => 6,
    }
}

/// The free column left of the placed buttons is at or right of the bar's
/// left edge.
proof fn lemma_top_placed_bounds(inner: ScreenRect, actions: Seq<TopAction>)
    requires
        inner.x + inner.width <= u16::MAX,
    ensures
        inner.x <= top_placed(inner, actions).0 <= inner.x + inner.width,
    decreases actions.len(),
{
    if actions.len() > 0 {
        lemma_top_placed_bounds(inner, actions.drop_last());
    }
}

/// Where the top bar drawn in `inner` puts its buttons, right-aligned and
/// one cell apart (rightmost first), and how wide the status text before
/// them may be.
pub fn top_bar_layout(inner: ScreenRect) -> (r: (Vec<ButtonHit<TopAction>>, u16))
    requires
        inner.x + inner.width <= u16::MAX,
    ensures
        r.0@ == top_placed(inner, top_actions_from_right()).1,
        r.1 == sat_sub(top_placed(inner, top_actions_from_right()).0 - inner.x, 1),
{
    let order: Vec<TopAction> = vec![
        TopAction::Quit,
        TopAction::ExportText,
        TopAction::SaveAs,
        TopAction::Save,
        TopAction::ToggleOnionSkin,
        TopAction::BlankFrame,
        TopAction::DuplicateFrame,
        TopAction::NextFrame,
        TopAction::PreviousFrame,
    ];
    let ghost rs = top_actions_from_right();
    assert(order@ == rs);
    let mut x: u16 = inner.x + inner.width;
    let mut out: Vec<ButtonHit<TopAction>> = Vec::new();
    let mut k: usize = 0;
    while k < order.len()
        invariant
            k <= order@.len(),
            order@ == rs,
            inner.x + inner.width <= u16::MAX,
            (x as int, out@) == top_placed(inner, rs.take(k as int)),
        decreases order.len() - k,
    {
        proof {
            assert(rs.take(k + 1).drop_last() == rs.take(k as int));
            lemma_top_placed_bounds(inner, rs.take(k as int));
        }
        let action = order[k];
        let width = top_button_width_of(action);
        if width + 1 <= x - inner.x {
            x = x - width;
            out.push(ButtonHit { action, area: ScreenRect { x, y: inner.y, width, height: 1 } });
            x = x.saturating_sub(1);
        }
        k += 1;
    }
    proof {
        assert(rs.take(rs.len() as int) == rs);
        lemma_top_placed_bounds(inner, rs);
    }
    let text_width = (x - inner.x).saturating_sub(1);
    (out, text_width)
}

/// Where the tool menu drawn in `inner` puts its rows: one per tool, from
/// the third row down, as many as fit.
pub fn tool_menu_rows(inner: ScreenRect) -> (r: Vec<ButtonHit<crate::editor::controls::Tool>>)
    requires
        inner.y + inner.height <= u16::MAX,
    ensures
        r@.len() == if sat_sub(inner.height as int, 2) < 9 { sat_sub(inner.height as int, 2) } else { 9 },
        forall|i: int|
            0 <= i < r@.len() ==> {
                &&& (#[trigger] r@[i]).action == crate::editor::controls::tool_choices_seq()[i]
                &&& r@[i].area == (ScreenRect { x: inner.x, y: (inner.y + 2 + i) as u16, width: inner.width, height: 1 })
            },
{
    let tools = crate::editor::controls::tool_choices();
    let mut out: Vec<ButtonHit<crate::editor::controls::Tool>> = Vec::new();
    let mut y: u16 = inner.y.saturating_add(2);
    let mut i: usize = 0;
    while i < tools.len() && y < inner.y + inner.height
        invariant
            i <= tools@.len(),
            tools@ == crate::editor::controls::tool_choices_seq(),
            inner.y + inner.height <= u16::MAX,
            y == sat_add16(inner.y as int, 2) + i,
            i <= sat_sub(inner.height as int, 2),
            out@.len() == i,
            forall|j: int|
                0 <= j < i ==> {
                    &&& (#[trigger] out@[j]).action == crate::editor::controls::tool_choices_seq()[j]
                    &&& out@[j].area == (ScreenRect { x: inner.x, y: (inner.y + 2 + j) as u16, width: inner.width, height: 1 })
                },
        decreases tools.len() - i,
    {
        out.push(ButtonHit { action: tools[i], area: ScreenRect { x: inner.x, y, width: inner.width, height: 1 } });
        y = y + 1;
        i += 1;
    }
    out
}

/// A dialog's title.
pub open spec fn modal_title_text(m: Modal) -> Seq<char> {
    match m {
        Modal::NewImage { .. } => "New Image"@,
        Modal::NewAnimation { .. } => "New Animation"@,
        Modal::OpenFile { .. } => "Open File"@,
        Modal::SaveAs { .. } => "Save As"@,
        Modal::OverwriteConfirm { .. } => "Overwrite File"@,
        Modal::BrushChar { .. } => "Brush Character"@,
        Modal::TextInput { .. } => "Text"@,
        Modal::NewStyle { .. } => "New Style"@,
        Modal::RenameStyle { .. } => "Rename Style"@,
        Modal::SetFg { .. } => "Foreground"@,
        Modal::SetBg { .. } => "Background"@,
        Modal::RgbInput { .. } => "RGB Mixer"@,
        Modal::ExportText { .. } => "Export Text"@,
        Modal::ExportAnsi { .. } => "Export ANSI"@,
        Modal::ColorPicker => "More Colors"@,
        Modal::ExportMenu => "Export"@,
        Modal::ToolMenu => "Choose Tool"@,
        Modal::QuitConfirm => "Unsaved Changes"@,
    }
}

/// A dialog's title.
pub fn modal_title(m: &Modal) -> (r: &'static str)
    ensures
        r@ == modal_title_text(*m),
{
    match m {
        Modal::NewImage { .. } => "New Image",
        Modal::NewAnimation { .. } => "New Animation",
        Modal::OpenFile { .. } => "Open File",
        Modal::SaveAs { .. } => "Save As",
        Modal::OverwriteConfirm { .. } => "Overwrite File",
        Modal::BrushChar { .. } => "Brush Character",
        Modal::TextInput { .. } => "Text",
        Modal::NewStyle { .. } => "New Style",
        Modal::RenameStyle { .. } => "Rename Style",
        Modal::SetFg { .. } => "Foreground",
        Modal::SetBg { .. } => "Background",
        Modal::RgbInput { .. } => "RGB Mixer",
        Modal::ExportText { .. } => "Export Text",
        Modal::ExportAnsi { .. } => "Export ANSI",
        Modal::ColorPicker => "More Colors",
        Modal::ExportMenu => "Export",
        Modal::ToolMenu => "Choose Tool",
        Modal::QuitConfirm => "Unsaved Changes",
    }
}

/// The line a text dialog shows: what is asked for and what has been
/// typed; the menus and pickers, drawn otherwise, show nothing here.
pub open spec fn modal_body_text(m: Modal) -> Seq<char> {
    match m {
        Modal::NewImage { input, .. } => "Dimensions: "@ + input@,
        Modal::NewAnimation { input, .. } => "Dimensions: "@ + input@,
        Modal::OpenFile { input } => "Path: "@ + input@,
        Modal::SaveAs { input } => "Path: "@ + input@,
        Modal::OverwriteConfirm { path } => "Replace existing file "@ + path@ + "?"@,
        Modal::BrushChar { input } => "Character: "@ + input@,
        Modal::TextInput { input, start } => "At "@ + decimal_text(start.0 as nat) + ","@ + decimal_text(start.1 as nat)
            + ": "@ + input@,
        Modal::NewStyle { input } => "Style ID: "@ + input@,
        Modal::RenameStyle { input } => "Style ID: "@ + input@,
        Modal::SetFg { input } => "Color: "@ + input@,
        Modal::SetBg { input } => "Color: "@ + input@,
        Modal::ExportText { input } => "Path: "@ + input@,
        Modal::ExportAnsi { input } => "Path: "@ + input@,
        Modal::ExportMenu => "Choose an export format"@,
        Modal::QuitConfirm => "Save changes before closing?"@,
        _ => Seq::empty(),
    }
}

/// `prefix` followed by `s`.
fn prefixed(prefix: &str, s: &String) -> (r: String)
    ensures
        r@ == prefix@ + s@,
{
    let mut out = owned(prefix);
    push_str(&mut out, s.as_str());
    out
}

/// The line a text dialog shows.
pub fn modal_body(m: &Modal) -> (r: String)
    ensures
        r@ == modal_body_text(*m),
{
    match m {
        Modal::NewImage { input, .. } => prefixed("Dimensions: ", input),
        Modal::NewAnimation { input, .. } => prefixed("Dimensions: ", input),
        Modal::OpenFile { input } => prefixed("Path: ", input),
        Modal::SaveAs { input } => prefixed("Path: ", input),
        Modal::OverwriteConfirm { path } => {
            let mut out = prefixed("Replace existing file ", path);
            push_str(&mut out, "?");
            out
        },
        Modal::BrushChar { input } => prefixed("Character: ", input),
        Modal::TextInput { input, start } => {
            let mut out = owned("At ");
            push_str(&mut out, decimal_string(start.0 as u64).as_str());
            push_str(&mut out, ",");
            push_str(&mut out, decimal_string(start.1 as u64).as_str());
            push_str(&mut out, ": ");
            push_str(&mut out, input.as_str());
            out
        },
        Modal::NewStyle { input } => prefixed("Style ID: ", input),
        Modal::RenameStyle { input } => prefixed("Style ID: ", input),
        Modal::SetFg { input } => prefixed("Color: ", input),
        Modal::SetBg { input } => prefixed("Color: ", input),
        Modal::ExportText { input } => prefixed("Path: ", input),
        Modal::ExportAnsi { input } => prefixed("Path: ", input),
        Modal::ExportMenu => owned("Choose an export format"),
        Modal::QuitConfirm => owned("Save changes before closing?"),
        _ => String::new(),
    }
}

/// The index of the first color the picker shows: the first of the
/// scrolled-to row.
pub open spec fn picker_start(s: AppState) -> int {
    s.color_picker_scroll_row * crate::editor::actions::picker_columns(s.areas.modal_area)
}

/// How many colors the picker has room for from its first shown color on:
/// a full grid, or the colors that remain.
pub open spec fn picker_shown(s: AppState) -> int {
    let a = s.areas.modal_area;
    let start = picker_start(s);
    if start >= crate::editor::palette::MORE_COLOR_COUNT {
        0
    } else {
        let visible = crate::editor::actions::picker_columns(a) * crate::editor::actions::picker_grid(a).height;
        let remaining = crate::editor::palette::MORE_COLOR_COUNT - start;
        if visible < remaining { visible } else { remaining }
    }
}

/// Where the picker's `i`th shown color sits in the grid.
pub open spec fn picker_slot(s: AppState, i: int) -> Option<(u16, u16)> {
    let a = s.areas.modal_area;
    crate::editor::geometry::spec_palette_position(
        crate::editor::actions::picker_grid(a),
        crate::editor::actions::picker_columns(a) as u16,
        crate::editor::palette::COLOR_SLOT_WIDTH,
        i,
    )
}

/// The picker's `i`th shown entry: its color index and its slot, as wide
/// as a slot or as what remains of the grid's row.
pub open spec fn picker_entry(s: AppState, i: int) -> ButtonHit<usize> {
    let grid = crate::editor::actions::picker_grid(s.areas.modal_area);
    let p = picker_slot(s, i).unwrap();
    let room = grid.x + grid.width - p.0;
    ButtonHit {
        action: (picker_start(s) + i) as usize,
        area: ScreenRect {
            x: p.0,
            y: p.1,
            width: (if (crate::editor::palette::COLOR_SLOT_WIDTH as int) < room {
                crate::editor::palette::COLOR_SLOT_WIDTH as int
            } else {
                room
            }) as u16,
            height: 1,
        },
    }
}

/// Each of `r` is the picker's entry at its position, in a slot of the
/// grid.
pub open spec fn picker_entries_from(s: AppState, r: Seq<ButtonHit<usize>>) -> bool {
    forall|i: int| 0 <= i < r.len() ==> #[trigger] picker_slot(s, i) is Some && r[i] == picker_entry(s, i)
}

impl AppState {
    /// Where the color picker puts its visible entries: from the first
    /// color of the scrolled-to row, each in its slot of the grid, as many
    /// as fit.
    pub fn picker_entries(&self) -> (r: Vec<ButtonHit<usize>>)
        requires
            self.wf(),
        ensures
            r@.len() <= picker_shown(*self),
            picker_entries_from(*self, r@),
            r@.len() < picker_shown(*self) ==> picker_slot(*self, r@.len() as int) is None,
            ({
                let grid = crate::editor::actions::picker_grid(self.areas.modal_area);
                let start = self.color_picker_scroll_row * crate::editor::actions::picker_columns(self.areas.modal_area);
                forall|i: int|
                    0 <= i < r@.len() ==> {
                        &&& (#[trigger] r@[i]).action == start + i
                        &&& r@[i].action < crate::editor::palette::MORE_COLOR_COUNT
                        &&& r@[i].area.height == 1
                        &&& r@[i].area.x >= grid.x
                        &&& r@[i].area.x + r@[i].area.width <= grid.x + grid.width
                        &&& grid.y <= r@[i].area.y < grid.y + grid.height
                    }
            }),
    {
        let grid = self.color_picker_grid_area();
        let columns = self.color_picker_columns();
        let rows = grid.height;
        let mut out: Vec<ButtonHit<usize>> = Vec::new();
        let start = match self.color_picker_scroll_row.checked_mul(columns as usize) {
            Some(s) => s,
            None => {
                return out;
            },
        };
        proof {
            assert((columns as int) * (rows as int) <= 12 * 65535) by (nonlinear_arith)
                requires
                    columns <= 12,
                    rows <= 65535,
            ;
        }
        let visible = (columns as usize) * (rows as usize);
        if start >= crate::editor::palette::MORE_COLOR_COUNT {
            return out;
        }
        let remaining = crate::editor::palette::MORE_COLOR_COUNT - start;
        let shown = if visible < remaining { visible } else { remaining };
        proof {
            assert(start == picker_start(*self));
            assert(shown == picker_shown(*self));
        }
        let mut offset: usize = 0;
        while offset < shown
            invariant
                offset <= shown,
                shown == picker_shown(*self),
                start == picker_start(*self),
                grid == crate::editor::actions::picker_grid(self.areas.modal_area),
                columns == crate::editor::actions::picker_columns(self.areas.modal_area),
                picker_entries_from(*self, out@),
                start < crate::editor::palette::MORE_COLOR_COUNT,
                start + shown <= crate::editor::palette::MORE_COLOR_COUNT,
                out@.len() == offset,
                grid.x + grid.width <= u16::MAX,
                grid.y + grid.height <= u16::MAX,
                forall|i: int|
                    0 <= i < out@.len() ==> {
                        &&& (#[trigger] out@[i]).action == start + i
                        &&& out@[i].action < crate::editor::palette::MORE_COLOR_COUNT
                        &&& out@[i].area.height == 1
                        &&& out@[i].area.x >= grid.x
                        &&& out@[i].area.x + out@[i].area.width <= grid.x + grid.width
                        &&& grid.y <= out@[i].area.y < grid.y + grid.height
                    },
            ensures
                out@.len() <= shown,
                picker_entries_from(*self, out@),
                out@.len() < shown ==> picker_slot(*self, out@.len() as int) is None,
                forall|i: int|
                    0 <= i < out@.len() ==> {
                        &&& (#[trigger] out@[i]).action == start + i
                        &&& out@[i].action < crate::editor::palette::MORE_COLOR_COUNT
                        &&& out@[i].area.height == 1
                        &&& out@[i].area.x >= grid.x
                        &&& out@[i].area.x + out@[i].area.width <= grid.x + grid.width
                        &&& grid.y <= out@[i].area.y < grid.y + grid.height
                    },
            decreases shown - offset,
        {
            match crate::editor::geometry::palette_position(grid, columns, crate::editor::palette::COLOR_SLOT_WIDTH, offset) {
                Some((x, y)) => {
                    let room = grid.x + grid.width - x;
                    let width = if crate::editor::palette::COLOR_SLOT_WIDTH < room {
                        crate::editor::palette::COLOR_SLOT_WIDTH
                    } else {
                        room
                    };
                    let ghost before = out@;
                    out.push(ButtonHit { action: start + offset, area: ScreenRect { x, y, width, height: 1 } });
                    proof {
                        assert(picker_slot(*self, offset as int) == Some((x, y)));
                        assert(out@[offset as int] == picker_entry(*self, offset as int));
                        assert forall|i: int| 0 <= i < out@.len() implies #[trigger] picker_slot(*self, i) is Some
                            && out@[i] == picker_entry(*self, i) by {
                            if i < offset {
                                assert(out@[i] == before[i]);
                                assert(picker_slot(*self, i) is Some && before[i] == picker_entry(*self, i));
                            }
                        }
                    }
                },
                None => {
                    break;
                },
            }
            offset += 1;
        }
        out
    }
}

/// The column of the `i`th attribute toggle on a sidebar row of `area`:
/// after the `Attrs:` caption, four cells apart.
pub open spec fn attr_button_x(area: ScreenRect, i: int) -> int
    decreases i,
{
    if i <= 0 {
        sat_add16(area.x as int, 7)
    } else {
        sat_add16(attr_button_x(area, i - 1), 4)
    }
}

/// `r` is the attribute toggles of the sidebar row `y` of `area`: three
/// cells wide, in order, as many as fit.
pub open spec fn attr_buttons_placed(area: ScreenRect, y: u16, r: Seq<ButtonHit<crate::model::TextAttr>>) -> bool {
    &&& r.len() <= 5
    &&& forall|i: int|
        0 <= i < r.len() ==> {
            &&& (#[trigger] r[i]).action == crate::editor::palette::attr_choices()[i]
            &&& r[i].area == (ScreenRect { x: attr_button_x(area, i) as u16, y, width: 3, height: 1 })
            &&& sat_add16(attr_button_x(area, i), 3) <= area.x + area.width
        }
    &&& r.len() < 5 ==> sat_add16(attr_button_x(area, r.len() as int), 3) > area.x + area.width
}

/// Where the sidebar row `y` of `area` puts its attribute toggles.
#[verifier::spinoff_prover]
pub fn attr_button_layout(area: ScreenRect, y: u16) -> (r: Vec<ButtonHit<crate::model::TextAttr>>)
    requires
        area.x + area.width <= u16::MAX,
    ensures
        attr_buttons_placed(area, y, r@),
{
    let choices = crate::editor::palette::attr_choices_vec();
    let max_x = area.x + area.width;
    let mut x = area.x.saturating_add(7);
    let mut out: Vec<ButtonHit<crate::model::TextAttr>> = Vec::new();
    let mut i: usize = 0;
    while i < choices.len() && x.saturating_add(3) <= max_x
        invariant
            i <= choices@.len(),
            choices@ == crate::editor::palette::attr_choices(),
            max_x == area.x + area.width,
            x == attr_button_x(area, i as int),
            out@.len() == i,
            forall|j: int|
                0 <= j < i ==> {
                    &&& (#[trigger] out@[j]).action == crate::editor::palette::attr_choices()[j]
                    &&& out@[j].area == (ScreenRect { x: attr_button_x(area, j) as u16, y, width: 3, height: 1 })
                    &&& sat_add16(attr_button_x(area, j), 3) <= area.x + area.width
                },
        decreases choices.len() - i,
    {
        out.push(ButtonHit { action: choices[i], area: ScreenRect { x, y, width: 3, height: 1 } });
        x = x.saturating_add(4);
        i += 1;
    }
    out
}

/// The selection buttons in sidebar order.
pub open spec fn selection_actions_seq() -> Seq<crate::editor::controls::SelectionAction> {
    seq![
        crate::editor::controls::SelectionAction::Copy,
        crate::editor::controls::SelectionAction::Cut,
        crate::editor::controls::SelectionAction::Delete,
        crate::editor::controls::SelectionAction::Stamp,
        crate::editor::controls::SelectionAction::Clear,
    ]
}

/// The width of a selection button: its caption and a cell on each side.
pub open spec fn selection_button_width(a: crate::editor::controls::SelectionAction) -> int {
    2 + match a {
        crate::editor::controls::SelectionAction::Copy => 4int,
        crate::editor::controls::SelectionAction::Cut => 3,
        crate::editor::controls::SelectionAction::Delete => 6,
        crate::editor::controls::SelectionAction::Stamp => 5,
        crate::editor::controls::SelectionAction::Clear => 5,
    }
}

/// The column of the `i`th selection button on a sidebar row of `area`.
pub open spec fn selection_button_x(area: ScreenRect, i: int) -> int
    decreases i,
{
    if i <= 0 {
        area.x as int
    } else {
        sat_add16(
            selection_button_x(area, i - 1),
            selection_button_width(selection_actions_seq()[i - 1]) + 1,
        )
    }
}

/// `r` is the selection buttons of the sidebar row `y` of `area`: one cell
/// apart, in order, as many as fit.
pub open spec fn selection_buttons_placed(
    area: ScreenRect,
    y: u16,
    r: Seq<ButtonHit<crate::editor::controls::SelectionAction>>,
) -> bool {
    &&& r.len() <= 5
    &&& forall|i: int|
        0 <= i < r.len() ==> {
            &&& (#[trigger] r[i]).action == selection_actions_seq()[i]
            &&& r[i].area == (ScreenRect {
                x: selection_button_x(area, i) as u16,
                y,
                width: selection_button_width(selection_actions_seq()[i]) as u16,
                height: 1,
            })
            &&& sat_add16(selection_button_x(area, i), selection_button_width(selection_actions_seq()[i]))
                <= area.x + area.width
        }
    &&& r.len() < 5 ==> sat_add16(
        selection_button_x(area, r.len() as int),
        selection_button_width(selection_actions_seq()[r.len() as int]),
    ) > area.x + area.width
}

/// Where the sidebar row `y` of `area` puts the selection buttons.
#[verifier::spinoff_prover]
pub fn selection_button_layout(area: ScreenRect, y: u16) -> (r: Vec<ButtonHit<crate::editor::controls::SelectionAction>>)
    requires
        area.x + area.width <= u16::MAX,
    ensures
        selection_buttons_placed(area, y, r@),
{
    let actions = vec![
        crate::editor::controls::SelectionAction::Copy,
        crate::editor::controls::SelectionAction::Cut,
        crate::editor::controls::SelectionAction::Delete,
        crate::editor::controls::SelectionAction::Stamp,
        crate::editor::controls::SelectionAction::Clear,
    ];
    let max_x = area.x + area.width;
    let mut x = area.x;
    let mut out: Vec<ButtonHit<crate::editor::controls::SelectionAction>> = Vec::new();
    let mut i: usize = 0;
    let mut width: u16 = 6;
    while i < actions.len() && x.saturating_add(width) <= max_x
        invariant
            i <= actions@.len(),
            actions@ == selection_actions_seq(),
            max_x == area.x + area.width,
            x == selection_button_x(area, i as int),
            i < actions@.len() ==> width == selection_button_width(selection_actions_seq()[i as int]),
            out@.len() == i,
            forall|j: int|
                0 <= j < i ==> {
                    &&& (#[trigger] out@[j]).action == selection_actions_seq()[j]
                    &&& out@[j].area == (ScreenRect {
                        x: selection_button_x(area, j) as u16,
                        y,
                        width: selection_button_width(selection_actions_seq()[j]) as u16,
                        height: 1,
                    })
                    &&& sat_add16(selection_button_x(area, j), selection_button_width(selection_actions_seq()[j]))
                        <= area.x + area.width
                },
        decreases actions.len() - i,
    {
        let action = actions[i];
        out.push(ButtonHit { action, area: ScreenRect { x, y, width, height: 1 } });
        x = x.saturating_add(width + 1);
        i += 1;
        if i < actions.len() {
            width = match actions[i] {
                crate::editor::controls::SelectionAction::Copy => 6,
                crate::editor::controls::SelectionAction::Cut => 5,
                crate::editor::controls::SelectionAction::Delete => 8,
                crate::editor::controls::SelectionAction::Stamp => 7,
                crate::editor::controls::SelectionAction::Clear => 7,
            };
        }
    }
    out
}

/// Where a row of the RGB dialog puts its controls: the step-down button,
/// the slider track and the step-up button, and the column of the value.
#[derive(Debug, Clone, Copy)]
pub struct RgbRowLayout {
    pub decrement: Option<ScreenRect>,
    pub slider: Option<ScreenRect>,
    pub increment: Option<ScreenRect>,
    pub value_x: u16,
}

/// The RGB dialog row drawn in `area`: nothing when narrower than 26
/// cells; else a step-down button after the six-cell caption, then a
/// track filling the row but for the step-up button and the value (the
/// track and the step-up button only when the track is at least eight
/// cells).
pub open spec fn rgb_row(area: ScreenRect) -> RgbRowLayout {
    if area.width < 26 || area.height == 0 {
        RgbRowLayout { decrement: None, slider: None, increment: None, value_x: 0 }
    } else {
        let dec_x = sat_add16(area.x as int, 7);
        let track_x = sat_add16(sat_add16(dec_x, 3), 1);
        let track_width = sat_sub(sat_sub(sat_add16(area.x as int, area.width as int), track_x), 8);
        let dec = Some(ScreenRect { x: dec_x as u16, y: area.y, width: 3, height: 1 });
        if track_width < 8 {
            RgbRowLayout { decrement: dec, slider: None, increment: None, value_x: 0 }
        } else {
            let inc_x = sat_add16(sat_add16(track_x, track_width), 1);
            RgbRowLayout {
                decrement: dec,
                slider: Some(ScreenRect { x: track_x as u16, y: area.y, width: track_width as u16, height: 1 }),
                increment: Some(ScreenRect { x: inc_x as u16, y: area.y, width: 3, height: 1 }),
                value_x: sat_add16(sat_add16(inc_x, 3), 1) as u16,
            }
        }
    }
}

/// The RGB dialog row drawn in `area`.
pub fn rgb_row_layout(area: ScreenRect) -> (r: RgbRowLayout)
    ensures
        r == rgb_row(area),
{
    if area.width < 26 || area.height == 0 {
        return RgbRowLayout { decrement: None, slider: None, increment: None, value_x: 0 };
    }
    let dec_x = area.x.saturating_add(7);
    let track_x = dec_x.saturating_add(3).saturating_add(1);
    let track_width = area.x.saturating_add(area.width).saturating_sub(track_x).saturating_sub(8);
    let dec = Some(ScreenRect { x: dec_x, y: area.y, width: 3, height: 1 });
    if track_width < 8 {
        return RgbRowLayout { decrement: dec, slider: None, increment: None, value_x: 0 };
    }
    let inc_x = track_x.saturating_add(track_width).saturating_add(1);
    RgbRowLayout {
        decrement: dec,
        slider: Some(ScreenRect { x: track_x, y: area.y, width: track_width, height: 1 }),
        increment: Some(ScreenRect { x: inc_x, y: area.y, width: 3, height: 1 }),
        value_x: inc_x.saturating_add(3).saturating_add(1),
    }
}

/// The top bar's status text: the document's path (or `untitled`) and a
/// star when unsaved, its size and kind, the frame shown, how many cells
/// it paints, and the onion skin.
pub open spec fn top_bar_status(s: AppState) -> Seq<char> {
    " "@ + match s.file_path {
        Some(p) => p@,
        None => "untitled"@,
    } + (if s.dirty { " *"@ } else { ""@ }) + " | "@ + decimal_text(s.project.asset.width as nat) + "x"@
        + decimal_text(s.project.asset.height as nat) + " | "@ + crate::model::kind_name(s.project.asset.kind)
        + " | frame "@ + decimal_text((s.current_frame_index + 1) as nat) + "/"@ + decimal_text(
        s.project.frames@.len(),
    ) + " | "@ + decimal_text(s.cells().len()) + " cells | "@ + if s.onion_skin {
        "onion on"@
    } else {
        "onion off"@
    }
}

impl AppState {
    /// The top bar's status text.
    pub fn top_bar_text(&self) -> (r: String)
        requires
            self.wf(),
        ensures
            r@ == top_bar_status(*self),
    {
        let mut t = owned(" ");
        match &self.file_path {
            Some(p) => push_str(&mut t, p.as_str()),
            None => push_str(&mut t, "untitled"),
        }
        push_str(&mut t, if self.dirty { " *" } else { "" });
        push_str(&mut t, " | ");
        push_str(&mut t, decimal_string(self.project.asset.width as u64).as_str());
        push_str(&mut t, "x");
        push_str(&mut t, decimal_string(self.project.asset.height as u64).as_str());
        push_str(&mut t, " | ");
        push_str(&mut t, self.project.asset.kind.as_str());
        push_str(&mut t, " | frame ");
        push_str(&mut t, decimal_string((self.current_frame_index + 1) as u64).as_str());
        push_str(&mut t, "/");
        push_str(&mut t, decimal_string(self.project.frames.len() as u64).as_str());
        push_str(&mut t, " | ");
        push_str(&mut t, decimal_string(self.current_frame().cells.len() as u64).as_str());
        push_str(&mut t, " cells | ");
        push_str(&mut t, if self.onion_skin { "onion on" } else { "onion off" });
        t
    }
}

} // verus!
