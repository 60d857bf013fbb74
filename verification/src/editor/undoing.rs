//! Laws of the edit history: each kind of edit goes into the history in a
//! form that undo takes back exactly.

use vstd::prelude::*;

use crate::editor::edits::{applied, effective, filled, pushed_finished, stroke_after_paint, undone};
use crate::editor::frames::stroke_finished;
use crate::editor::history::{lemma_edit_then_undo, opt_cell, revert, set_cell, shows_after, CellChange};
use crate::editor::geometry::CellRect;
use crate::editor::selection::{moved_selection, shape_drawn, stamp_pasted};
use crate::editor::state::{AppState, ShapeDrag};
use crate::editor::tools::selection_deleted;
use crate::model::{CellKey, PaintedCell};
use crate::roundtrip::{same_frame, same_project, same_style};

verus! {

/// `b` is `a` after one edit of frame `i` that went into the history: the
/// edit sits on top of the undo history, nothing else of the document
/// changed, and taking back its changes gives frame `i` the cells it had
/// in `a`.
pub open spec fn edit_recorded(a: AppState, b: AppState, i: int) -> bool {
    let s = b.undo_stack@.last();
    &&& 0 <= i < a.project.frames@.len()
    &&& b.undo_stack@.len() == a.undo_stack@.len() + 1
    &&& b.undo_stack@.drop_last() == a.undo_stack@
    &&& s.frame_index == i
    &&& b.project_edits_frame(a, i)
    &&& revert(b.project.frames@[i].cells@, s.changes@) == a.project.frames@[i].cells@
}

/// Undo takes back a recorded edit, also after steps that left the document
/// and the undo history as the edit left them, such as moving to another
/// frame: the document is as it was before the edit, the edited frame is
/// current, the undo history is as it was before the edit, the edit waits
/// on top of the redo history and the document counts as changed.
pub proof fn lemma_undo_takes_back_recorded_edit(a: AppState, b: AppState, m: AppState, c: AppState, i: int)
    requires
        edit_recorded(a, b, i),
        m.project == b.project,
        m.undo_stack == b.undo_stack,
        undone(m, c),
    ensures
        same_project(c.project, a.project),
        c.current_frame_index == i,
        c.undo_stack@ == a.undo_stack@,
        c.redo_stack@ == m.redo_stack@.push(b.undo_stack@.last()),
        c.dirty,
{
    assert(c.project.frames@[i].cells@ == a.project.frames@[i].cells@);
    assert forall|k: int| 0 <= k < c.project.styles@.len() implies same_style(
        #[trigger] c.project.styles@[k],
        a.project.styles@[k],
    ) by {
        assert(c.project.styles@[k] == a.project.styles@[k]);
    }
    assert forall|j: int| 0 <= j < c.project.frames@.len() implies same_frame(
        #[trigger] c.project.frames@[j],
        a.project.frames@[j],
    ) by {
        if j != i {
            assert(c.project.frames@[j] == a.project.frames@[j]);
        }
    }
}

/// An edit made of cell updates (placing text, pasting a stamp, drawing a
/// shape, deleting or moving a selection) is recorded when it changed
/// something.
pub proof fn lemma_applied_edit_recorded(a: AppState, b: AppState, u: Map<CellKey, Option<PaintedCell>>)
    requires
        a.wf(),
        applied(a, b, u),
        b.undo_stack@.len() != a.undo_stack@.len(),
    ensures
        edit_recorded(a, b, a.current_frame_index as int),
{
    lemma_edit_then_undo(a.cells(), u);
}

/// A flood fill that changed something is a recorded edit of the current
/// frame.
pub proof fn lemma_fill_recorded(a: AppState, b: AppState, x: u16, y: u16)
    requires
        a.wf(),
        filled(a, b, x, y),
        b.undo_stack@.len() != a.undo_stack@.len(),
    ensures
        edit_recorded(a, b, a.current_frame_index as int),
{
    let m = a.cells();
    let t = opt_cell(m, (y, x));
    let c = b.undo_stack@.last().changes@;
    let r = revert(b.cells(), c);
    let w = a.project.asset.width;
    let h = a.project.asset.height;
    let holding = Set::new(|q: CellKey| opt_cell(m, q) == t);
    assert(crate::editor::edits::spreads_within(m, t, w, h, (y, x), holding));
    assert forall|k: CellKey| opt_cell(r, k) == opt_cell(m, k) by {
        assert(opt_cell(b.cells(), k) == if c.contains_key(k) {
            Some(PaintedCell { ch: a.brush_char, style_index: a.current_style })
        } else {
            opt_cell(m, k)
        });
        if c.contains_key(k) {
            assert(c[k].before == t);
            assert(crate::editor::edits::fill_reaches(m, t, w, h, (y, x), k));
            assert(holding.contains(k));
        }
    }
    assert forall|k: CellKey| #[trigger] r.contains_key(k) == m.contains_key(k) by {
        assert(opt_cell(r, k) == opt_cell(m, k));
    }
    assert forall|k: CellKey| r.contains_key(k) implies #[trigger] r[k] == m[k] by {
        assert(opt_cell(r, k) == opt_cell(m, k));
    }
    assert(r =~= m);
}

/// Pasting a stamp that changed something is a recorded edit.
pub proof fn lemma_paste_recorded(a: AppState, b: AppState, x: u16, y: u16)
    requires
        a.wf(),
        stamp_pasted(a, b, x, y),
        b.undo_stack@.len() != a.undo_stack@.len(),
    ensures
        edit_recorded(a, b, a.current_frame_index as int),
{
    let i = a.current_stamp_index.unwrap();
    let u = crate::editor::selection::paste_updates(
        a.stamps@[i as int].cells@,
        x,
        y,
        a.project.asset.width,
        a.project.asset.height,
    );
    lemma_applied_edit_recorded(a, b, u);
}

/// Drawing a line or rectangle that changed something is a recorded edit.
pub proof fn lemma_shape_recorded(a: AppState, b: AppState, shape: ShapeDrag)
    requires
        a.wf(),
        shape_drawn(a, b, shape),
        b.undo_stack@.len() != a.undo_stack@.len(),
    ensures
        edit_recorded(a, b, a.current_frame_index as int),
{
    let pts = choose|pts: Set<(u16, u16)>| {
        let u = crate::editor::selection::shape_updates(
            pts,
            PaintedCell { ch: a.brush_char, style_index: a.current_style },
        );
        &&& #[trigger] crate::editor::selection::shape_points_ok(shape.tool, shape.start, shape.end, pts)
        &&& applied(a, b, u)
        &&& b.message@ == crate::editor::edits::apply_message(a, u, "Drew shape"@)
    };
    let u = crate::editor::selection::shape_updates(pts, PaintedCell { ch: a.brush_char, style_index: a.current_style });
    lemma_applied_edit_recorded(a, b, u);
}

/// Deleting a selection that changed something is a recorded edit.
pub proof fn lemma_delete_recorded(a: AppState, b: AppState)
    requires
        a.wf(),
        selection_deleted(a, b),
        b.undo_stack@.len() != a.undo_stack@.len(),
    ensures
        edit_recorded(a, b, a.current_frame_index as int),
{
    lemma_applied_edit_recorded(a, b, crate::editor::tools::clear_updates(a.selection.unwrap()));
}

/// Moving a selection that changed something is a recorded edit.
pub proof fn lemma_move_recorded(
    a: AppState,
    b: AppState,
    source: CellRect,
    cells: Map<CellKey, PaintedCell>,
    requested: (u16, u16),
)
    requires
        a.wf(),
        moved_selection(a, b, source, cells, requested),
        b.undo_stack@.len() != a.undo_stack@.len(),
    ensures
        edit_recorded(a, b, a.current_frame_index as int),
{
    let dest = crate::editor::selection::spec_clamp_destination(
        source.width,
        source.height,
        requested.0,
        requested.1,
        a.project.asset.width,
        a.project.asset.height,
    );
    let rect = CellRect { x: dest.0, y: dest.1, width: source.width, height: source.height };
    let mid = AppState { selection: Some(rect), ..a };
    let u = crate::editor::selection::move_updates(source, cells, dest);
    assert(mid.cells() == a.cells());
    lemma_applied_edit_recorded(mid, b, u);
}

/// A stroke in progress over cells `m` with changes `c` tracks `base`: the
/// cells show what the changes left, and taking the changes back gives
/// `base`.
pub open spec fn stroke_tracks(m: Map<CellKey, PaintedCell>, c: Map<CellKey, CellChange>, base: Map<CellKey, PaintedCell>) -> bool {
    &&& shows_after(m, c)
    &&& revert(m, c) == base
}

/// A new stroke, with no changes yet, tracks the cells it starts on.
pub proof fn lemma_new_stroke_tracks(m: Map<CellKey, PaintedCell>)
    ensures
        stroke_tracks(m, Map::empty(), m),
{
    assert(revert(m, Map::empty()) =~= m);
}

/// Each cell a pencil or eraser stroke paints keeps the stroke tracking the
/// cells it started from: the first value the stroke saw at a cell stays
/// what undo gives back there.
pub proof fn lemma_stroke_paint_tracks(
    m: Map<CellKey, PaintedCell>,
    c: Map<CellKey, CellChange>,
    base: Map<CellKey, PaintedCell>,
    key: CellKey,
    after: Option<PaintedCell>,
)
    requires
        stroke_tracks(m, c, base),
    ensures
        stroke_tracks(set_cell(m, key, after), stroke_after_paint(c, m, key, after), base),
{
    let m2 = set_cell(m, key, after);
    let c2 = stroke_after_paint(c, m, key, after);
    if opt_cell(m, key) == after {
        assert(m2 =~= m) by {
            assert forall|k: CellKey| #[trigger] m2.contains_key(k) == m.contains_key(k) by {}
        }
    } else {
        assert forall|k: CellKey| #[trigger] c2.contains_key(k) implies opt_cell(m2, k) == c2[k].after by {
            if k != key {
                assert(c.contains_key(k));
            }
        }
        let r = revert(m2, c2);
        assert forall|k: CellKey| opt_cell(r, k) == opt_cell(base, k) by {
            assert(opt_cell(revert(m, c), k) == opt_cell(base, k));
        }
        assert forall|k: CellKey| #[trigger] r.contains_key(k) == base.contains_key(k) by {
            assert(opt_cell(r, k) == opt_cell(base, k));
        }
        assert forall|k: CellKey| r.contains_key(k) implies #[trigger] r[k] == base[k] by {
            assert(opt_cell(r, k) == opt_cell(base, k));
        }
        assert(r =~= base);
    }
}

/// A pencil or eraser stroke that changed something is, once finished, a
/// recorded edit of the frame it painted: `p` is the editor with the stroke
/// in progress, tracking the cells frame `i` had in `a`, and `b` is `p`
/// with the stroke finished.
pub proof fn lemma_finished_stroke_recorded(a: AppState, p: AppState, b: AppState, i: int)
    requires
        0 <= i < a.project.frames@.len(),
        p.active_stroke matches Some(s) && s.frame_index == i && stroke_tracks(
            p.project.frames@[i].cells@,
            s.changes@,
            a.project.frames@[i].cells@,
        ),
        p.project_edits_frame(a, i),
        p.undo_stack == a.undo_stack,
        stroke_finished(p, b),
        b.undo_stack@.len() != a.undo_stack@.len(),
    ensures
        edit_recorded(a, b, i),
{
    let s = p.active_stroke.unwrap();
    let m = p.project.frames@[i].cells@;
    let e = effective(s.changes@);
    assert(pushed_finished(b.undo_stack@, p.undo_stack@, s));
    let r = revert(m, e);
    let base = revert(m, s.changes@);
    assert forall|k: CellKey| #[trigger] r.contains_key(k) == base.contains_key(k) by {
        if s.changes@.contains_key(k) && !e.contains_key(k) {
            assert(opt_cell(m, k) == s.changes@[k].after);
        }
    }
    assert forall|k: CellKey| r.contains_key(k) implies #[trigger] r[k] == base[k] by {
        if s.changes@.contains_key(k) && !e.contains_key(k) {
            assert(opt_cell(m, k) == s.changes@[k].after);
        }
    }
    assert(r =~= base);
}

} // verus!
