use std::collections::BTreeMap;
use vstd::prelude::*;

use crate::editor::controls::{tool_label, Tool};
use crate::editor::edits::{effective, pushed_finished};
use crate::editor::naming::{first_free, frame_id_set, next_frame_id, numbered};
use crate::editor::state::{cells_styled, AppState};
use crate::model::{AssetKind, CellKey, Frame, PaintedCell, MAX_FRAMES};
use crate::text::{decimal_string, decimal_text, owned, push_str};

verus! {

broadcast use vstd::std_specs::btree::group_btree_axioms;

/// `"{prefix} {index + 1}/{count}"`.
pub open spec fn position_text(prefix: Seq<char>, index: nat, count: nat) -> Seq<char> {
    prefix + " "@ + decimal_text(index + 1) + "/"@ + decimal_text(count)
}

/// `f` is `o` with its stroke in progress finished.
pub open spec fn stroke_finished(o: AppState, f: AppState) -> bool {
    &&& f.active_stroke is None
    &&& f.should_quit == o.should_quit
    &&& f.project == o.project
    &&& f.current_frame_index == o.current_frame_index
    &&& f.redo_stack == o.redo_stack
    &&& f.eq_tools(o)
    &&& f.eq_selection(o)
    &&& match o.active_stroke {
        None => f.undo_stack == o.undo_stack,
        Some(s) => pushed_finished(f.undo_stack@, o.undo_stack@, s),
    }
}

/// `f` is `o` after a new frame holding `cells` went in right after the
/// current one and became current: it gets the first free `frame-N` ID and
/// the default duration, the document becomes an animation when it has
/// more than one frame, and the selection and the history are cleared.
pub open spec fn frame_inserted(o: AppState, f: AppState, cells: Map<CellKey, PaintedCell>, action: Seq<char>) -> bool {
    let i = o.current_frame_index + 1;
    if o.project.frames@.len() >= MAX_FRAMES {
        &&& f.eq_except_message(o)
        &&& f.message@ == "Cannot add frame: limit is 1000"@
    } else {
        let nf = f.project.frames@[i];
        &&& f.project.frames@.len() == o.project.frames@.len() + 1
        &&& f.project.frames@.take(i) == o.project.frames@.take(i)
        &&& f.project.frames@.skip(i + 1) == o.project.frames@.skip(i)
        &&& nf.cells@ == cells
        &&& nf.duration_ms == o.project.asset.default_frame_duration_ms
        &&& exists|n: nat| #[trigger] first_free(frame_id_set(o.project), "frame-"@, 1, n) && (nf.id matches Some(id) && id@
            == numbered("frame-"@, n))
        &&& f.project.styles == o.project.styles
        &&& f.project.layout == o.project.layout
        &&& f.project.asset.kind == if o.project.frames@.len() + 1 > 1 { AssetKind::Animation } else { o.project.asset.kind }
        &&& f.project.asset.width == o.project.asset.width
        &&& f.project.asset.height == o.project.asset.height
        &&& f.project.asset.default_frame_duration_ms == o.project.asset.default_frame_duration_ms
        &&& f.current_frame_index == i
        &&& f.selection is None
        &&& f.moving_selection is None
        &&& f.shape_drag is None
        &&& f.selection_drag_anchor is None
        &&& f.undo_stack@.len() == 0
        &&& f.redo_stack@.len() == 0
        &&& f.dirty
        &&& f.eq_tools(o)
        &&& f.modal == o.modal
        &&& f.should_quit == o.should_quit
        &&& f.message@ == position_text(action, i as nat, f.project.frames@.len())
    }
}

impl AppState {
    /// `"{prefix} {n}/{count}"` for the current frame.
    pub fn frame_position_message(&self, prefix: &str) -> (r: String)
        requires
            self.wf(),
        ensures
            r@ == position_text(prefix@, self.current_frame_index as nat, self.project.frames@.len()),
    {
        let mut m = owned(prefix);
        push_str(&mut m, " ");
        push_str(&mut m, decimal_string((self.current_frame_index as u64) + 1).as_str());
        push_str(&mut m, "/");
        push_str(&mut m, decimal_string(self.project.frames.len() as u64).as_str());
        m
    }

    /// Picks `tool`, unless it is the stamp tool and there is no stamp.
    pub fn select_tool(&mut self, tool: Tool)
        requires
            old(self).wf(),
        ensures
            final(self).wf(),
            *final(self) == (AppState { tool: final(self).tool, message: final(self).message, ..*old(self) }),
            if tool == Tool::Stamp && !(old(self).current_stamp_index matches Some(i) && i < old(self).stamps@.len()) {
                final(self).tool == old(self).tool && final(self).message@ == "No stamp available"@
            } else {
                final(self).tool == tool && final(self).message@ == tool_label(tool) + " selected"@
            },
    {
        if tool == Tool::Stamp && self.current_stamp().is_none() {
            self.message = owned("No stamp available");
            return;
        }
        self.tool = tool;
        let mut m = owned(tool.label());
        push_str(&mut m, " selected");
        self.message = m;
    }

    /// Picks `tool` from the tool menu and closes it.
    pub fn select_tool_from_menu(&mut self, tool: Tool)
        requires
            old(self).wf(),
        ensures
            final(self).wf(),
            final(self).modal is None,
            final(self).hover.modal_tool is None,
            *final(self) == (AppState {
                tool: final(self).tool,
                message: final(self).message,
                modal: None,
                hover: crate::editor::state::HoverState { modal_tool: None, ..old(self).hover },
                ..*old(self)
            }),
            if tool == Tool::Stamp && !(old(self).current_stamp_index matches Some(i) && i < old(self).stamps@.len()) {
                final(self).tool == old(self).tool && final(self).message@ == "No stamp available"@
            } else {
                final(self).tool == tool && final(self).message@ == tool_label(tool) + " selected"@
            },
    {
        self.modal = None;
        self.hover.modal_tool = None;
        self.select_tool(tool);
    }

    /// Shows or hides the previous frame under the current one.
    pub fn toggle_onion_skin(&mut self)
        requires
            old(self).wf(),
        ensures
            final(self).wf(),
            final(self).onion_skin == !old(self).onion_skin,
            final(self).message@ == if final(self).onion_skin { "Onion skin on"@ } else { "Onion skin off"@ },
            *final(self) == (AppState { onion_skin: final(self).onion_skin, message: final(self).message, ..*old(self) }),
    {
        self.onion_skin = !self.onion_skin;
        self.message = if self.onion_skin {
            owned("Onion skin on")
        } else {
            owned("Onion skin off")
        };
    }

    /// Inserts a frame holding `cells` right after the current one and
    /// makes it current, announcing it with `action`.
    pub fn insert_frame_after_current(&mut self, cells: BTreeMap<CellKey, PaintedCell>, action: &str)
        requires
            old(self).wf(),
            cells_styled(cells@, old(self).project.styles@.len()),
        ensures
            final(self).wf(),
            frame_inserted(*old(self), *final(self), cells@, action@),
    {
        let ghost before = *self;
        if self.project.frames.len() >= MAX_FRAMES {
            self.message = owned("Cannot add frame: limit is 1000");
            return;
        }
        let insert_index = self.current_frame_index + 1;
        let id = next_frame_id(&self.project);
        let frame = Frame { id: Some(id), duration_ms: self.project.asset.default_frame_duration_ms, cells };
        let ghost n = self.project.styles@.len();
        self.project.frames.insert(insert_index, frame);
        self.current_frame_index = insert_index;
        self.reset_selection_state();
        self.normalize_frame_kind();
        self.dirty = true;
        self.undo_stack.clear();
        self.redo_stack.clear();
        self.message = self.frame_position_message(action);
        proof {
            assert(self.project.frames@.take(insert_index as int) =~= before.project.frames@.take(insert_index as int));
            assert(self.project.frames@.skip(insert_index + 1) =~= before.project.frames@.skip(insert_index as int));
            assert forall|f: int| 0 <= f < self.project.frames@.len() implies cells_styled((#[trigger] self.project.frames@[f]).cells@, n) by {
                if f < insert_index {
                    assert(self.project.frames@[f] == before.project.frames@[f]);
                } else if f > insert_index {
                    assert(self.project.frames@[f] == before.project.frames@[f - 1]);
                }
            }
        }
    }

    /// Moves to the previous frame, finishing the stroke in progress.
    pub fn previous_frame_or_message(&mut self)
        requires
            old(self).wf(),
        ensures
            final(self).wf(),
            final(self).project == old(self).project,
            old(self).current_frame_index == 0 ==> final(self).current_frame_index == 0 && final(self).message@
                == "Already on first frame"@,
            old(self).current_frame_index > 0 ==> final(self).current_frame_index == old(self).current_frame_index - 1
                && final(self).selection is None && final(self).message@ == position_text(
                "Frame"@,
                (old(self).current_frame_index - 1) as nat,
                old(self).project.frames@.len(),
            ),
            final(self).active_stroke is None,
            final(self).should_quit == old(self).should_quit,
    {
        self.finish_stroke();
        if self.current_frame_index == 0 {
            self.message = owned("Already on first frame");
            return;
        }
        self.current_frame_index -= 1;
        self.reset_selection_state();
        self.message = self.frame_position_message("Frame");
    }

    /// Moves to the next frame, or adds a copy of the current frame after
    /// it when it is the last; the stroke in progress is finished first.
    pub fn next_frame_or_create(&mut self)
        requires
            old(self).wf(),
        ensures
            final(self).wf(),
            old(self).current_frame_index + 1 < old(self).project.frames@.len() ==> {
                &&& final(self).project == old(self).project
                &&& final(self).current_frame_index == old(self).current_frame_index + 1
                &&& final(self).selection is None
                &&& final(self).message@ == position_text(
                    "Frame"@,
                    (old(self).current_frame_index + 1) as nat,
                    old(self).project.frames@.len(),
                )
            },
            old(self).current_frame_index + 1 >= old(self).project.frames@.len() ==> exists|mid: AppState| #[trigger] stroke_finished(
                *old(self),
                mid,
            ) && frame_inserted(mid, *final(self), old(self).cells(), "Added frame"@),
            final(self).should_quit == old(self).should_quit,
    {
        let ghost before = *self;
        self.finish_stroke();
        let ghost mid = *self;
        if self.current_frame_index + 1 < self.project.frames.len() {
            self.current_frame_index += 1;
            self.reset_selection_state();
            self.message = self.frame_position_message("Frame");
            return;
        }
        let cells = self.project.frames[self.current_frame_index].cells.clone();
        self.insert_frame_after_current(cells, "Added frame");
        proof {
            assert(stroke_finished(before, mid));
        }
    }

    /// Adds a copy of the current frame after it and makes it current.
    pub fn duplicate_current_frame(&mut self)
        requires
            old(self).wf(),
        ensures
            final(self).wf(),
            exists|mid: AppState| #[trigger] stroke_finished(*old(self), mid) && frame_inserted(
                mid,
                *final(self),
                old(self).cells(),
                "Duplicated frame"@,
            ),
    {
        let ghost before = *self;
        self.finish_stroke();
        let ghost mid = *self;
        let cells = self.project.frames[self.current_frame_index].cells.clone();
        self.insert_frame_after_current(cells, "Duplicated frame");
        proof {
            assert(stroke_finished(before, mid));
        }
    }

    /// Adds an empty frame after the current one and makes it current.
    pub fn insert_blank_frame(&mut self)
        requires
            old(self).wf(),
        ensures
            final(self).wf(),
            exists|mid: AppState| #[trigger] stroke_finished(*old(self), mid) && frame_inserted(
                mid,
                *final(self),
                Map::empty(),
                "Added blank frame"@,
            ),
    {
        let ghost before = *self;
        self.finish_stroke();
        let ghost mid = *self;
        let cells: BTreeMap<CellKey, PaintedCell> = BTreeMap::new();
        self.insert_frame_after_current(cells, "Added blank frame");
        proof {
            assert(stroke_finished(before, mid));
        }
    }
}

} // verus!
