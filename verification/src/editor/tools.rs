use std::collections::BTreeMap;
use vstd::prelude::*;

use crate::editor::controls::Tool;
use crate::editor::edits::{applied, apply_message, filled};
use crate::editor::geometry::{clear_rect_updates, spec_cell_rect_contains, CellRect};
use crate::editor::history::{opt_cell, set_cell};
use crate::editor::selection::{captured, moved_selection, shape_drawn, shifted, spec_clamp_destination, stamp_pasted};
use crate::editor::state::{cells_styled, opt_styled, stamp_within, AppState, Modal, MovingSelection, ShapeDrag};
use crate::model::{CellKey, PaintedCell};
use crate::text::{char_debug_string, char_debug_text, decimal_string, decimal_text, owned, push_str};

verus! {

broadcast use vstd::std_specs::btree::group_btree_axioms;

/// The updates that clear every cell of `rect`.
pub open spec fn clear_updates(rect: CellRect) -> Map<CellKey, Option<PaintedCell>> {
    Map::new(|k: CellKey| spec_cell_rect_contains(rect, k.1, k.0), |k: CellKey| None::<PaintedCell>)
}

/// The canvas cell `(x, y)` under the screen cell `(column, row)`, if the
/// canvas is drawn there and the cell is on the canvas.
pub open spec fn spec_canvas_cell(s: AppState, column: u16, row: u16) -> Option<(u16, u16)> {
    let a = s.areas.canvas_area;
    if column < a.x || row < a.y || column >= a.x + a.width || row >= a.y + a.height {
        None
    } else if column - a.x < s.project.asset.width && row - a.y < s.project.asset.height {
        Some(((column - a.x) as u16, (row - a.y) as u16))
    } else {
        None
    }
}

/// The screen cell `(column, row)` lies in the canvas area, and its offset
/// from the area's corner lies on the canvas.
pub open spec fn over_canvas(s: AppState, column: u16, row: u16) -> bool {
    let a = s.areas.canvas_area;
    &&& a.x <= column < a.x + a.width
    &&& a.y <= row < a.y + a.height
    &&& column - a.x < s.project.asset.width
    &&& row - a.y < s.project.asset.height
}

/// The mouse reaches every canvas cell shown, and only those: a screen
/// cell over the canvas maps to its offset from the corner of the canvas
/// area, every other screen cell to no canvas cell, and the canvas cell
/// `(x, y)` is found again at screen cell `(area.x + x, area.y + y)`.
pub proof fn lemma_canvas_cell_is_offset(s: AppState, column: u16, row: u16)
    ensures
        over_canvas(s, column, row) ==> spec_canvas_cell(s, column, row) == Some(
            ((column - s.areas.canvas_area.x) as u16, (row - s.areas.canvas_area.y) as u16),
        ),
        !over_canvas(s, column, row) ==> spec_canvas_cell(s, column, row) is None,
        spec_canvas_cell(s, column, row) matches Some(p) ==> {
            &&& p.0 < s.project.asset.width
            &&& p.1 < s.project.asset.height
            &&& column == s.areas.canvas_area.x + p.0
            &&& row == s.areas.canvas_area.y + p.1
        },
{
}

/// `"{a}x{b}"` with decimal numbers.
pub open spec fn size_text(a: u16, b: u16) -> Seq<char> {
    decimal_text(a as nat) + "x"@ + decimal_text(b as nat)
}

/// Builds `"{a}x{b}"`.
pub fn size_string(a: u16, b: u16) -> (r: String)
    ensures
        r@ == size_text(a, b),
{
    let mut s = decimal_string(a as u64);
    push_str(&mut s, "x");
    push_str(&mut s, decimal_string(b as u64).as_str());
    s
}

/// What clearing the selection does: nothing is selected or dragged
/// any more, and the document, tools and history stay.
pub open spec fn selection_cleared(o: AppState, f: AppState) -> bool {
    &&& f.selection is None
    &&& f.selection_drag_anchor is None
    &&& f.moving_selection is None
    &&& f.shape_drag is None
    &&& f.project == o.project
    &&& f.eq_tools(o)
    &&& f.undo_stack == o.undo_stack
    &&& f.dirty == o.dirty
    &&& f.should_quit == o.should_quit
    &&& f.message@ == "Selection cleared"@
}

/// What deleting the selection does: its cells become transparent as
/// one edit, or a message says there is no selection.
pub open spec fn selection_deleted(o: AppState, f: AppState) -> bool {
    &&& match o.selection {
        None => f.eq_except_message(o) && f.message@ == "No selection to delete"@,
        Some(sel) => applied(o, f, clear_updates(sel)) && f.message@ == apply_message(
            o,
            clear_updates(sel),
            "Deleted selection"@,
        ),
    }
}

/// What copying the selection does: its painted cells become the
/// newest stamp, or a message says why not.
pub open spec fn selection_copied(o: AppState, f: AppState) -> bool {
    &&& f.project == o.project
    &&& f.should_quit == o.should_quit
    &&& f.undo_stack == o.undo_stack
    &&& f.tool == o.tool
    &&& match o.selection {
        None => f.stamps == o.stamps && f.message@ == "No selection to copy"@,
        Some(sel) => if captured(o.cells(), sel).dom().len() == 0 {
            f.stamps == o.stamps && f.message@ == "Selection has no painted cells"@
        } else {
            &&& f.stamps@.len() > 0
            &&& f.stamps@[0].cells@ == captured(o.cells(), sel)
            &&& f.stamps@[0].width == sel.width
            &&& f.stamps@[0].height == sel.height
            &&& f.stamps@.drop_first() == o.stamps@.take(f.stamps@.len() - 1)
            &&& f.current_stamp_index == Some(0usize)
            &&& f.message@ == "Copied selection to stamp"@
        },
    }
}

/// What cutting the selection does: its painted cells become the newest
/// stamp and are cleared, with the stamp tool chosen.
pub open spec fn selection_cut(o: AppState, f: AppState) -> bool {
    &&& match o.selection {
        None => f.eq_except_message(o) && f.message@ == "No selection to cut"@,
        Some(sel) => {
            &&& f.tool == Tool::Stamp
            &&& f.should_quit == o.should_quit
            &&& f.current_frame_index == o.current_frame_index
            &&& f.cells() == crate::editor::history::apply_updates(o.cells(), clear_updates(sel))
            &&& (captured(o.cells(), sel).dom().len() != 0 ==> f.stamps@[0].cells@ == captured(
                o.cells(),
                sel,
            ) && f.current_stamp_index == Some(0usize))
        },
    }
}

/// What saving the selection as a stamp does.
pub open spec fn selection_stamped(o: AppState, f: AppState) -> bool {
    &&& f.project == o.project
    &&& f.undo_stack == o.undo_stack
    &&& match o.selection {
        None => f.stamps == o.stamps && f.tool == o.tool
            && f.message@ == "No selection to stamp"@,
        Some(sel) => if captured(o.cells(), sel).dom().len() == 0 {
            f.stamps == o.stamps && f.tool == o.tool
                && f.message@ == "Selection has no painted cells"@
        } else {
            &&& f.stamps@[0].cells@ == captured(o.cells(), sel)
            &&& f.current_stamp_index == Some(0usize)
            &&& f.tool == Tool::Stamp
            &&& f.message@ == "Saved "@ + size_text(sel.width, sel.height) + " stamp"@
        },
    }
}

/// What pressing the mouse with the selection tool does: grab the
/// selection under it for moving, or start a new selection there.
pub open spec fn selection_begun(o: AppState, f: AppState, column: u16, row: u16) -> bool {
    &&& f.project == o.project
    &&& match spec_canvas_cell(o, column, row) {
        None => f == o,
        Some(p) => match o.selection {
            Some(sel) if spec_cell_rect_contains(sel, p.0, p.1) => {
                &&& f.moving_selection matches Some(m) && m.source == sel && m.stamp.cells@ == captured(
                    o.cells(),
                    sel,
                ) && m.grab_offset == ((p.0 - sel.x) as u16, (p.1 - sel.y) as u16) && m.destination == (sel.x, sel.y)
                &&& f.selection_drag_anchor is None
                &&& f.message@ == "Drag to move selection"@
            },
            _ => {
                &&& f.selection_drag_anchor == Some(p)
                &&& f.moving_selection is None
                &&& f.selection == Some(CellRect { x: p.0, y: p.1, width: 1, height: 1 })
                &&& f.message@ == "Drag to select cells"@
            },
        },
    }
}

/// What dragging with the selection tool does: the grabbed selection
/// follows the mouse, or the new selection stretches to it.
pub open spec fn selection_dragged(o: AppState, f: AppState, column: u16, row: u16) -> bool {
    &&& f.project == o.project
    &&& f.message == o.message
    &&& match spec_canvas_cell(o, column, row) {
        None => f == o,
        Some(p) => match o.moving_selection {
            Some(m) => f.moving_selection matches Some(f) && f.source == m.source && f.stamp == m.stamp
                && f.grab_offset == m.grab_offset && f.destination == spec_clamp_destination(
                m.source.width,
                m.source.height,
                (if p.0 >= m.grab_offset.0 { p.0 - m.grab_offset.0 } else { 0 }) as u16,
                (if p.1 >= m.grab_offset.1 { p.1 - m.grab_offset.1 } else { 0 }) as u16,
                o.project.asset.width,
                o.project.asset.height,
            ),
            None => match o.selection_drag_anchor {
                Some(a) => f.selection == Some(CellRect {
                    x: if a.0 < p.0 { a.0 } else { p.0 },
                    y: if a.1 < p.1 { a.1 } else { p.1 },
                    width: ((if a.0 < p.0 { p.0 - a.0 } else { a.0 - p.0 }) + 1) as u16,
                    height: ((if a.1 < p.1 { p.1 - a.1 } else { a.1 - p.1 }) + 1) as u16,
                }),
                None => f == o,
            },
        },
    }
}

/// What releasing the mouse with the selection tool does: a grabbed
/// selection is moved where it was dropped, as one edit.
pub open spec fn selection_dropped(o: AppState, f: AppState) -> bool {
    &&& f.moving_selection is None
    &&& match o.moving_selection {
        Some(m) => moved_selection(
            AppState { moving_selection: None, ..o },
            f,
            m.source,
            m.stamp.cells@,
            m.destination,
        ),
        None => {
            &&& f.selection_drag_anchor is None
            &&& f.project == o.project
            &&& f.selection == o.selection
            &&& (o.selection_drag_anchor is Some && o.selection is Some ==> f.message@
                == "Selected "@ + size_text(o.selection.unwrap().width, o.selection.unwrap().height))
        },
    }
}

/// What clicking with the text tool does: ask for the text to place at
/// the cell under the mouse.
pub open spec fn text_input_opened(o: AppState, f: AppState, column: u16, row: u16) -> bool {
    &&& f.project == o.project
    &&& match spec_canvas_cell(o, column, row) {
        None => f == o,
        Some(p) => {
            &&& f.modal matches Some(Modal::TextInput { input, start }) && input@.len() == 0 && start == p
            &&& f.message@ == "Enter text for "@ + decimal_text(p.0 as nat) + ","@ + decimal_text(p.1 as nat)
        },
    }
}

/// What pressing the mouse with the line or rectangle tool does.
pub open spec fn shape_begun(o: AppState, f: AppState, column: u16, row: u16) -> bool {
    &&& f.project == o.project
    &&& match spec_canvas_cell(o, column, row) {
        None => f == o,
        Some(p) => f.shape_drag == Some(ShapeDrag { tool: o.tool, start: p, end: p }),
    }
}

/// What dragging with the line or rectangle tool does.
pub open spec fn shape_dragged(o: AppState, f: AppState, column: u16, row: u16) -> bool {
    &&& f.project == o.project
    &&& match spec_canvas_cell(o, column, row) {
        None => f == o,
        Some(p) => match o.shape_drag {
            Some(d) => f.shape_drag == Some(ShapeDrag { end: p, ..d }),
            None => f.shape_drag is None,
        },
    }
}

/// What the current tool does at the cell under the mouse: paint, erase,
/// pick or fill.
pub open spec fn tool_applied(o: AppState, f: AppState, column: u16, row: u16) -> bool {
    &&& match spec_canvas_cell(o, column, row) {
        None => f == o,
        Some(p) => match o.tool {
            Tool::Pencil => f.cells() == set_cell(
                o.cells(),
                (p.1, p.0),
                Some(PaintedCell { ch: o.brush_char, style_index: o.current_style }),
            ),
            Tool::Eraser => f.cells() == set_cell(o.cells(), (p.1, p.0), None),
            Tool::Eyedropper => match opt_cell(o.cells(), (p.1, p.0)) {
                Some(c) => f.brush_char == c.ch && f.current_style == c.style_index
                    && f.message@ == "Picked "@ + char_debug_text(c.ch),
                None => f.message@ == "Cell is transparent"@ && f.brush_char
                    == o.brush_char,
            },
            Tool::Fill => filled(o, f, p.0, p.1),
            _ => f == o,
        },
    }
}

impl AppState {
    /// The canvas cell under a screen cell: the cell's offset from the
    /// corner of the canvas area, when the screen cell lies in that area and
    /// the offset lies on the canvas.
    pub fn canvas_cell_at(&self, column: u16, row: u16) -> (r: Option<(u16, u16)>)
        ensures
            r == spec_canvas_cell(*self, column, row),
            over_canvas(*self, column, row) ==> r == Some(((column - self.areas.canvas_area.x) as u16, (row
                - self.areas.canvas_area.y) as u16)),
            !over_canvas(*self, column, row) ==> r is None,
    {
        proof {
            lemma_canvas_cell_is_offset(*self, column, row);
        }
        let a = self.areas.canvas_area;
        if column < a.x || row < a.y || (column as u32) >= (a.x as u32) + (a.width as u32) || (row as u32) >= (a.y as u32)
            + (a.height as u32) {
            return None;
        }
        let x = column - a.x;
        let y = row - a.y;
        if x < self.project.asset.width && y < self.project.asset.height {
            Some((x, y))
        } else {
            None
        }
    }

    /// Forgets the selection and any drag in progress.
    pub fn reset_selection_state(&mut self)
        ensures
            final(self).selection is None,
            final(self).selection_drag_anchor is None,
            final(self).moving_selection is None,
            final(self).shape_drag is None,
            final(self).project == old(self).project,
            final(self).eq_tools(*old(self)),
            final(self).eq_view(*old(self)),
            final(self).current_frame_index == old(self).current_frame_index,
            final(self).undo_stack == old(self).undo_stack,
            final(self).redo_stack == old(self).redo_stack,
            final(self).active_stroke == old(self).active_stroke,
            final(self).dirty == old(self).dirty,
            final(self).modal == old(self).modal,
            final(self).message == old(self).message,
            final(self).screen == old(self).screen,
            final(self).file_path == old(self).file_path,
            final(self).onion_skin == old(self).onion_skin,
            final(self).should_quit == old(self).should_quit,
            *final(self) == (AppState {
                selection: None,
                selection_drag_anchor: None,
                moving_selection: None,
                shape_drag: None,
                ..*old(self)
            }),
    {
        self.selection = None;
        self.selection_drag_anchor = None;
        self.moving_selection = None;
        self.shape_drag = None;
    }

    /// Forgets the selection and says so.
    pub fn clear_selection(&mut self)
        requires
            old(self).wf(),
        ensures
            final(self).wf(),
            selection_cleared(*old(self), *final(self)),
    {
        self.reset_selection_state();
        self.message = owned("Selection cleared");
    }

    /// Clears the cells of the selection as one edit.
    pub fn delete_selection(&mut self)
        requires
            old(self).wf(),
        ensures
            final(self).wf(),
            selection_deleted(*old(self), *final(self)),
    {
        let selection = match self.selection {
            Some(s) => s,
            None => {
                self.message = owned("No selection to delete");
                return;
            },
        };
        let updates = clear_rect_updates(selection);
        proof {
            assert(updates@ =~= clear_updates(selection));
        }
        self.apply_cell_updates(updates, "Deleted selection");
    }

    /// Copies the selection's painted cells into a new current stamp.
    pub fn copy_selection_to_stamp(&mut self)
        requires
            old(self).wf(),
        ensures
            final(self).wf(),
            selection_copied(*old(self), *final(self)),
    {
        let selection = match self.selection {
            Some(s) => s,
            None => {
                self.message = owned("No selection to copy");
                return;
            },
        };
        let stamp = self.capture_rect(selection);
        if stamp.cells.is_empty() {
            proof {
                assert(captured(self.cells(), selection).dom() =~= Set::<CellKey>::empty());
            }
            self.message = owned("Selection has no painted cells");
            return;
        }
        let ghost before = *self;
        proof {
            let k = choose|k: CellKey| stamp.cells@.contains_key(k);
            assert(stamp.cells@.dom().contains(k));
            assert(stamp.cells@.dom().len() != 0);
            self.lemma_captured_styled(selection);
        }
        self.add_stamp(stamp);
        self.message = owned("Copied selection to stamp");
        proof {
            assert(captured(before.cells(), selection).dom().len() != 0);
            assert(self.stamps@.drop_first() =~= before.stamps@.take(self.stamps@.len() - 1));
        }
    }

    /// Captured cells name existing styles.
    pub proof fn lemma_captured_styled(&self, rect: CellRect)
        requires
            self.wf(),
        ensures
            cells_styled(captured(self.cells(), rect), self.project.styles@.len()),
            stamp_within(captured(self.cells(), rect), rect),
    {
        assert forall|k: CellKey| #[trigger] captured(self.cells(), rect).contains_key(k)
            implies captured(self.cells(), rect)[k].style_index < self.project.styles@.len() by {
            assert(self.cells().contains_key(shifted(k, rect.x, rect.y)));
        }
    }

    /// Copies the selection into a new current stamp, clears it, and picks
    /// the stamp tool.
    pub fn cut_selection_to_stamp(&mut self)
        requires
            old(self).wf(),
        ensures
            final(self).wf(),
            selection_cut(*old(self), *final(self)),
    {
        let selection = match self.selection {
            Some(s) => s,
            None => {
                self.message = owned("No selection to cut");
                return;
            },
        };
        let stamp = self.capture_rect(selection);
        proof {
            self.lemma_captured_styled(selection);
        }
        if !stamp.cells.is_empty() {
            self.add_stamp(stamp);
        } else {
            proof {
                assert(captured(self.cells(), selection).dom() =~= Set::<CellKey>::empty());
            }
        }
        self.delete_selection();
        self.tool = Tool::Stamp;
    }

    /// Keeps the selection's painted cells as a new current stamp and picks
    /// the stamp tool.
    pub fn save_selection_as_stamp(&mut self)
        requires
            old(self).wf(),
        ensures
            final(self).wf(),
            selection_stamped(*old(self), *final(self)),
    {
        let selection = match self.selection {
            Some(s) => s,
            None => {
                self.message = owned("No selection to stamp");
                return;
            },
        };
        let stamp = self.capture_rect(selection);
        if stamp.cells.is_empty() {
            proof {
                assert(captured(self.cells(), selection).dom() =~= Set::<CellKey>::empty());
            }
            self.message = owned("Selection has no painted cells");
            return;
        }
        proof {
            let k = choose|k: CellKey| stamp.cells@.contains_key(k);
            assert(stamp.cells@.dom().contains(k));
            self.lemma_captured_styled(selection);
        }
        let width = stamp.width;
        let height = stamp.height;
        self.add_stamp(stamp);
        self.tool = Tool::Stamp;
        let mut m = owned("Saved ");
        push_str(&mut m, size_string(width, height).as_str());
        push_str(&mut m, " stamp");
        self.message = m;
    }

    /// Picks the stamp tool when there is a stamp.
    pub fn select_stamp_tool(&mut self)
        requires
            old(self).wf(),
        ensures
            final(self).wf(),
            final(self).project == old(self).project,
            final(self).stamps == old(self).stamps,
            final(self).selection == old(self).selection,
            final(self).modal == old(self).modal,
            match old(self).current_stamp_index {
                Some(i) if i < old(self).stamps@.len() => final(self).tool == Tool::Stamp
                    && final(self).message@ == "Stamp tool selected"@,
                _ => final(self).tool == old(self).tool && final(self).message@ == "No stamp available"@,
            },
            *final(self) == (AppState { tool: final(self).tool, message: final(self).message, ..*old(self) }),
    {
        if self.current_stamp().is_some() {
            self.tool = Tool::Stamp;
            self.message = owned("Stamp tool selected");
        } else {
            self.message = owned("No stamp available");
        }
    }

    /// Pastes the current stamp at the canvas cell under the mouse.
    pub fn paste_stamp_at_screen(&mut self, column: u16, row: u16)
        requires
            old(self).wf(),
        ensures
            final(self).wf(),
            match spec_canvas_cell(*old(self), column, row) {
                None => *final(self) == *old(self),
                Some(p) => stamp_pasted(*old(self), *final(self), p.0, p.1),
            },
    {
        let (x, y) = match self.canvas_cell_at(column, row) {
            Some(p) => p,
            None => {
                return;
            },
        };
        self.paste_stamp_at(x, y);
    }

    /// Opens the text dialog for the canvas cell under the mouse.
    pub fn open_text_input_at_screen(&mut self, column: u16, row: u16)
        requires
            old(self).wf(),
        ensures
            final(self).wf(),
            text_input_opened(*old(self), *final(self), column, row),
    {
        let (x, y) = match self.canvas_cell_at(column, row) {
            Some(p) => p,
            None => {
                return;
            },
        };
        self.modal = Some(Modal::TextInput { input: String::new(), start: (x, y) });
        let mut m = owned("Enter text for ");
        push_str(&mut m, decimal_string(x as u64).as_str());
        push_str(&mut m, ",");
        push_str(&mut m, decimal_string(y as u64).as_str());
        self.message = m;
    }

    /// Starts a selection drag: grabbing inside the selection starts moving
    /// it, elsewhere a new one-cell selection starts.
    pub fn begin_selection_mouse(&mut self, column: u16, row: u16)
        requires
            old(self).wf(),
        ensures
            final(self).wf(),
            selection_begun(*old(self), *final(self), column, row),
    {
        let (x, y) = match self.canvas_cell_at(column, row) {
            Some(p) => p,
            None => {
                return;
            },
        };
        if let Some(selection) = self.selection {
            if selection.contains(x, y) {
                let stamp = self.capture_rect(selection);
                proof {
                    self.lemma_captured_styled(selection);
                }
                self.moving_selection = Some(MovingSelection {
                    source: selection,
                    stamp,
                    grab_offset: (x - selection.x, y - selection.y),
                    destination: (selection.x, selection.y),
                });
                self.selection_drag_anchor = None;
                self.message = owned("Drag to move selection");
                return;
            }
        }
        self.selection_drag_anchor = Some((x, y));
        self.moving_selection = None;
        self.selection = Some(CellRect::from_points((x, y), (x, y)));
        self.message = owned("Drag to select cells");
    }

    /// Continues a selection drag: a moving selection follows the mouse,
    /// kept on the canvas; otherwise the selection spans anchor to mouse.
    pub fn update_selection_mouse(&mut self, column: u16, row: u16)
        requires
            old(self).wf(),
        ensures
            final(self).wf(),
            selection_dragged(*old(self), *final(self), column, row),
    {
        let (x, y) = match self.canvas_cell_at(column, row) {
            Some(p) => p,
            None => {
                return;
            },
        };
        let width = self.project.asset.width;
        let height = self.project.asset.height;
        match self.moving_selection.take() {
            Some(moving) => {
                let destination = self.clamp_rect_destination(
                    moving.source.width,
                    moving.source.height,
                    x.saturating_sub(moving.grab_offset.0),
                    y.saturating_sub(moving.grab_offset.1),
                );
                self.moving_selection = Some(MovingSelection {
                    source: moving.source,
                    stamp: moving.stamp,
                    grab_offset: moving.grab_offset,
                    destination,
                });
                return;
            },
            None => {},
        }
        if let Some(anchor) = self.selection_drag_anchor {
            self.selection = Some(CellRect::from_points(anchor, (x, y)));
        }
    }

    /// Ends a selection drag: a moving selection is committed as one edit;
    /// a new selection reports its size.
    pub fn finish_selection_mouse(&mut self)
        requires
            old(self).wf(),
        ensures
            final(self).wf(),
            selection_dropped(*old(self), *final(self)),
    {
        match self.moving_selection.take() {
            Some(moving) => {
                proof {
                    let cw = self.project.asset.width;
                    let ch = self.project.asset.height;
                    let d = spec_clamp_destination(
                        moving.source.width,
                        moving.source.height,
                        moving.destination.0,
                        moving.destination.1,
                        cw,
                        ch,
                    );
                    assert forall|k: CellKey| #[trigger] moving.stamp.cells@.contains_key(k) implies d.0 + k.1 <= u16::MAX && d.1
                        + k.0 <= u16::MAX by {}
                }
                self.commit_selection_move(moving);
                return;
            },
            None => {},
        }
        if self.selection_drag_anchor.take().is_some() {
            if let Some(selection) = self.selection {
                let mut m = owned("Selected ");
                push_str(&mut m, size_string(selection.width, selection.height).as_str());
                self.message = m;
            }
        }
    }

    /// Starts dragging out a line or rectangle at the cell under the mouse.
    pub fn begin_shape_mouse(&mut self, column: u16, row: u16)
        requires
            old(self).wf(),
        ensures
            final(self).wf(),
            shape_begun(*old(self), *final(self), column, row),
    {
        let (x, y) = match self.canvas_cell_at(column, row) {
            Some(p) => p,
            None => {
                return;
            },
        };
        self.shape_drag = Some(ShapeDrag { tool: self.tool, start: (x, y), end: (x, y) });
        let mut m = owned("Drag to draw ");
        push_str(&mut m, self.tool.lower_label());
        self.message = m;
    }

    /// Moves the free end of the shape being dragged to the cell under the
    /// mouse.
    pub fn update_shape_mouse(&mut self, column: u16, row: u16)
        requires
            old(self).wf(),
        ensures
            final(self).wf(),
            shape_dragged(*old(self), *final(self), column, row),
    {
        let (x, y) = match self.canvas_cell_at(column, row) {
            Some(p) => p,
            None => {
                return;
            },
        };
        if let Some(shape) = self.shape_drag {
            self.shape_drag = Some(ShapeDrag { tool: shape.tool, start: shape.start, end: (x, y) });
        }
    }

    /// Ends a shape drag by drawing the shape.
    pub fn finish_shape_mouse(&mut self)
        requires
            old(self).wf(),
        ensures
            final(self).wf(),
            final(self).shape_drag is None,
            match old(self).shape_drag {
                None => *final(self) == *old(self),
                Some(s) => shape_drawn((AppState { shape_drag: None, ..*old(self) }), *final(self), s),
            },
    {
        let shape = match self.shape_drag {
            Some(s) => s,
            None => {
                return;
            },
        };
        self.shape_drag = None;
        self.draw_shape(shape);
    }

    /// Applies the current tool at the canvas cell under the mouse: paint,
    /// erase, pick, or fill.
    pub fn apply_tool_at_screen(&mut self, column: u16, row: u16)
        requires
            old(self).wf(),
        ensures
            final(self).wf(),
            tool_applied(*old(self), *final(self), column, row),
    {
        let (x, y) = match self.canvas_cell_at(column, row) {
            Some(p) => p,
            None => {
                return;
            },
        };
        match self.tool {
            Tool::Pencil => {
                let after = Some(PaintedCell { ch: self.brush_char, style_index: self.current_style });
                self.set_cell_for_stroke(x, y, after);
            },
            Tool::Eraser => self.set_cell_for_stroke(x, y, None),
            Tool::Eyedropper => {
                match self.cell_at((y, x)) {
                    Some(cell) => {
                        proof {
                            assert(self.cells().contains_key((y, x)));
                        }
                        self.brush_char = cell.ch;
                        self.current_style = cell.style_index;
                        let mut m = owned("Picked ");
                        push_str(&mut m, char_debug_string(cell.ch).as_str());
                        self.message = m;
                    },
                    None => {
                        self.message = owned("Cell is transparent");
                    },
                }
            },
            Tool::Fill => self.fill_at(x, y),
            _ => {},
        }
    }
}

} // verus!
