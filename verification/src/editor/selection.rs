use std::collections::{BTreeMap, BTreeSet};
use vstd::prelude::*;
use vstd::std_specs::iter::IteratorSpec;

use crate::editor::controls::Tool;
use crate::editor::edits::{applied, apply_message};
use crate::editor::geometry::{
    clear_rect_updates, in_bounding_box, line_points, offset_coord, spec_offset_coord, rectangle_points, spec_cell_rect_border,
    spec_cell_rect_contains, CellRect,
};
use crate::editor::history::{opt_cell, Stamp};
use crate::editor::palette::MAX_STAMPS;
use crate::editor::state::{cells_styled, opt_styled, stamps_styled, AppState, MovingSelection, ShapeDrag};
use crate::model::{painted, CellKey, PaintedCell};
use crate::text::{chars_of, decimal_string, decimal_text, owned, push_str};

verus! {

broadcast use vstd::std_specs::btree::group_btree_axioms;

/// The cell of `m` that `k`, taken relative to `(dx, dy)`, stands for.
pub open spec fn shifted(k: CellKey, dx: u16, dy: u16) -> CellKey {
    ((k.0 + dy) as u16, (k.1 + dx) as u16)
}

/// The cells of `m` inside `rect`, keyed relative to its corner.
pub open spec fn captured(m: Map<CellKey, PaintedCell>, rect: CellRect) -> Map<CellKey, PaintedCell> {
    Map::new(
        |k: CellKey|
            k.0 + rect.y <= u16::MAX && k.1 + rect.x <= u16::MAX && spec_cell_rect_contains(
                rect,
                (k.1 + rect.x) as u16,
                (k.0 + rect.y) as u16,
            ) && m.contains_key(shifted(k, rect.x, rect.y)),
        |k: CellKey| m[shifted(k, rect.x, rect.y)],
    )
}

/// The updates that paste the stamp cells `cells` with their corner at
/// `(x, y)`, dropping what falls outside a `w` by `h` canvas.
pub open spec fn paste_updates(cells: Map<CellKey, PaintedCell>, x: u16, y: u16, w: u16, h: u16) -> Map<CellKey, Option<PaintedCell>> {
    Map::new(
        |k: CellKey| k.0 < h && k.1 < w && k.0 >= y && k.1 >= x && cells.contains_key(((k.0 - y) as u16, (k.1 - x) as u16)),
        |k: CellKey| Some(cells[((k.0 - y) as u16, (k.1 - x) as u16)]),
    )
}

/// The destination a `width` by `height` rectangle moved to `(x, y)` is
/// clamped to so that it stays on a `cw` by `ch` canvas.
pub open spec fn spec_clamp_destination(width: u16, height: u16, x: u16, y: u16, cw: u16, ch: u16) -> (u16, u16) {
    let max_x: int = if cw >= width { cw - width } else { 0 };
    let max_y: int = if ch >= height { ch - height } else { 0 };
    ((if x < max_x { x as int } else { max_x }) as u16, (if y < max_y { y as int } else { max_y }) as u16)
}

/// The updates that move the cells of `source` (their copy `cells`) so its
/// corner lands on `dest`: the source is cleared, then the cells written.
pub open spec fn move_updates(source: CellRect, cells: Map<CellKey, PaintedCell>, dest: (u16, u16)) -> Map<CellKey, Option<PaintedCell>> {
    Map::new(
        |k: CellKey|
            spec_cell_rect_contains(source, k.1, k.0) || (k.0 >= dest.1 && k.1 >= dest.0 && cells.contains_key(
                ((k.0 - dest.1) as u16, (k.1 - dest.0) as u16),
            )),
        |k: CellKey|
            if k.0 >= dest.1 && k.1 >= dest.0 && cells.contains_key(((k.0 - dest.1) as u16, (k.1 - dest.0) as u16)) {
                Some(cells[((k.0 - dest.1) as u16, (k.1 - dest.0) as u16)])
            } else {
                None::<PaintedCell>
            },
    )
}

/// The updates that write `text` rightward from `(x, y)` in style `style`,
/// clipped at the right edge of a `w` by `h` canvas.
pub open spec fn text_updates(text: Seq<char>, x: u16, y: u16, style: usize, w: u16, h: u16) -> Map<CellKey, Option<PaintedCell>> {
    Map::new(
        |k: CellKey| k.0 == y && y < h && x <= k.1 < w && k.1 - x < text.len(),
        |k: CellKey| Some(painted(text[k.1 - x], style)),
    )
}

/// How many characters of a `len`-character text fit from column `x` of a
/// `w` by `h` canvas in row `y`.
pub open spec fn text_fit(len: nat, x: u16, y: u16, w: u16, h: u16) -> nat {
    if y < h && x < w {
        if len < w - x { len } else { (w - x) as nat }
    } else {
        0
    }
}

/// The updates that paint `cell` at every `(x, y)` point of `points`.
pub open spec fn shape_updates(points: Set<(u16, u16)>, cell: PaintedCell) -> Map<CellKey, Option<PaintedCell>> {
    Map::new(|k: CellKey| points.contains((k.1, k.0)), |k: CellKey| Some(cell))
}

/// The points a shape drag draws: a line, the outline of the rectangle the
/// two corners span, or nothing for other tools.
pub open spec fn shape_points_ok(tool: Tool, start: (u16, u16), end: (u16, u16), pts: Set<(u16, u16)>) -> bool {
    match tool {
        Tool::Line => pts == crate::editor::geometry::line_set(start, end) && pts.contains(start) && pts.contains(end) && forall|p: (u16, u16)| #[trigger] pts.contains(p) ==> in_bounding_box(p, start, end),
        Tool::Rectangle => forall|p: (u16, u16)| #[trigger] pts.contains(p) <==> spec_cell_rect_border(
            CellRect {
                x: if start.0 < end.0 { start.0 } else { end.0 },
                y: if start.1 < end.1 { start.1 } else { end.1 },
                width: ((if start.0 < end.0 { end.0 - start.0 } else { start.0 - end.0 }) + 1) as u16,
                height: ((if start.1 < end.1 { end.1 - start.1 } else { start.1 - end.1 }) + 1) as u16,
            },
            p.0,
            p.1,
        ),
        _ => pts.len() == 0,
    }
}

/// The corner pair spans less than the whole `u16` range on both axes.
pub open spec fn corners_ok(start: (u16, u16), end: (u16, u16)) -> bool {
    &&& (if start.0 < end.0 { end.0 - start.0 } else { start.0 - end.0 }) < u16::MAX
    &&& (if start.1 < end.1 { end.1 - start.1 } else { start.1 - end.1 }) < u16::MAX
}

/// The points a shape drag draws.
pub fn shape_points(tool: Tool, start: (u16, u16), end: (u16, u16)) -> (r: BTreeSet<(u16, u16)>)
    requires
        corners_ok(start, end),
    ensures
        shape_points_ok(tool, start, end, r@),
{
    match tool {
        Tool::Line => line_points(start, end),
        Tool::Rectangle => rectangle_points(CellRect::from_points(start, end)),
        _ => {
            let r = BTreeSet::new();
            proof {
                assert(r@ =~= Set::<(u16, u16)>::empty());
            }
            r
        },
    }
}

/// What pasting the current stamp at `(x, y)` does: its painted cells are
/// written where they land on the canvas, as one edit.
pub open spec fn stamp_pasted(o: AppState, f: AppState, x: u16, y: u16) -> bool {
    &&& match o.current_stamp_index {
        Some(i) if i < o.stamps@.len() => {
            let u = paste_updates(o.stamps@[i as int].cells@, x, y, o.project.asset.width, o.project.asset.height);
            &&& applied(o, f, u)
            &&& f.message@ == apply_message(o, u, "Pasted stamp"@)
        },
        _ => f.eq_except_message(o) && f.message@ == "No stamp available"@,
    }
}

impl AppState {
    /// Copies the cells of the current frame inside `rect` into a stamp of
    /// its size.
    pub fn capture_rect(&self, rect: CellRect) -> (s: Stamp)
        requires
            self.wf(),
        ensures
            s.width == rect.width,
            s.height == rect.height,
            s.cells@ == captured(self.cells(), rect),
    {
        let mut cells: BTreeMap<CellKey, PaintedCell> = BTreeMap::new();
        let frame = &self.project.frames[self.current_frame_index];
        let ghost m = frame.cells@;
        let ghost seq0 = vstd::std_specs::btree::spec_btree_map_iter(&frame.cells).remaining();
        let ghost mut done: Set<CellKey> = Set::empty();
        for entry in it: frame.cells.iter()
            invariant
                it.seq() == seq0,
                m == frame.cells@,
                forall|k: CellKey| #[trigger] done.contains(k) ==> m.contains_key(k),
                forall|j: int| 0 <= j < it.index() ==> done.contains(#[trigger] *seq0[j].0),
                forall|k: CellKey| #[trigger] cells@.contains_key(k) <==> (captured(m, rect).contains_key(k) && done.contains(
                    shifted(k, rect.x, rect.y),
                )),
                forall|k: CellKey| #[trigger] cells@.contains_key(k) ==> cells@[k] == m[shifted(k, rect.x, rect.y)],
        {
            let (key, cell) = entry;
            let (y, x) = *key;
            proof {
                let idx = it.index();
                assert(seq0[idx] == entry);
                assert(m.contains_key(*key) && m[*key] == *cell);
            }
            let ghost done_before = done;
            proof {
                done = done.insert(*key);
            }
            if rect.contains(x, y) {
                let target = (y - rect.y, x - rect.x);
                cells.insert(target, *cell);
                proof {
                    assert(shifted(target, rect.x, rect.y) == *key);
                }
            }
            proof {
                assert forall|k: CellKey| #[trigger] cells@.contains_key(k) <==> (captured(m, rect).contains_key(k) && done.contains(
                    shifted(k, rect.x, rect.y),
                )) by {
                    if shifted(k, rect.x, rect.y) == *key && captured(m, rect).contains_key(k) {
                        assert(k == ((y - rect.y) as u16, (x - rect.x) as u16));
                    }
                }
            }
        }
        proof {
            assert forall|k: CellKey| #[trigger] m.contains_key(k) implies done.contains(k) by {
                assert(seq0.contains((&k, &m[k])));
                let j = choose|j: int| 0 <= j < seq0.len() && seq0[j] == (&k, &m[k]);
                assert(*seq0[j].0 == k);
            }
            assert(cells@ =~= captured(m, rect));
        }
        Stamp { width: rect.width, height: rect.height, cells }
    }

    /// The stamp the stamp tool pastes, if any.
    pub fn current_stamp(&self) -> (r: Option<&Stamp>)
        ensures
            r == match self.current_stamp_index {
                Some(i) => if i < self.stamps@.len() { Some(&self.stamps@[i as int]) } else { None::<&Stamp> },
                None => None::<&Stamp>,
            },
    {
        match self.current_stamp_index {
            Some(i) => if i < self.stamps.len() {
                Some(&self.stamps[i])
            } else {
                None
            },
            None => None,
        }
    }

    /// Puts `stamp` first among the kept stamps (at most twelve) and makes
    /// it current.
    pub fn add_stamp(&mut self, stamp: Stamp)
        requires
            old(self).wf(),
            cells_styled(stamp.cells@, old(self).project.styles@.len()),
        ensures
            final(self).wf(),
            final(self).stamps@ == seq![stamp].add(old(self).stamps@).take(
                if old(self).stamps@.len() + 1 < MAX_STAMPS { (old(self).stamps@.len() + 1) as int } else { MAX_STAMPS as int },
            ),
            final(self).current_stamp_index == Some(0usize),
            final(self).project == old(self).project,
            final(self).tool == old(self).tool,
            final(self).message == old(self).message,
            final(self).selection == old(self).selection,
            final(self).undo_stack == old(self).undo_stack,
            final(self).redo_stack == old(self).redo_stack,
            final(self).dirty == old(self).dirty,
            final(self).current_frame_index == old(self).current_frame_index,
            final(self).current_style == old(self).current_style,
            final(self).modal == old(self).modal,
            final(self).should_quit == old(self).should_quit,
    {
        let ghost n = self.project.styles@.len();
        let ghost before = self.stamps@;
        self.stamps.insert(0, stamp);
        self.stamps.truncate(MAX_STAMPS);
        self.current_stamp_index = Some(0);
        proof {
            assert(seq![stamp].add(before) =~= before.insert(0, stamp));
            assert forall|i: int| 0 <= i < self.stamps@.len() implies cells_styled((#[trigger] self.stamps@[i]).cells@, n) by {
                if i > 0 {
                    assert(self.stamps@[i] == before[i - 1]);
                }
            }
        }
    }

    /// The top-left corner a `width` by `height` rectangle moved to
    /// `(x, y)` takes when kept on the canvas.
    pub fn clamp_rect_destination(&self, width: u16, height: u16, x: u16, y: u16) -> (r: (u16, u16))
        ensures
            r == spec_clamp_destination(width, height, x, y, self.project.asset.width, self.project.asset.height),
    {
        let max_x = self.project.asset.width.saturating_sub(width);
        let max_y = self.project.asset.height.saturating_sub(height);
        (if x < max_x { x } else { max_x }, if y < max_y { y } else { max_y })
    }

    /// Pastes the current stamp with its corner at `(x, y)` as one edit.
    pub fn paste_stamp_at(&mut self, x: u16, y: u16)
        requires
            old(self).wf(),
        ensures
            final(self).wf(),
            stamp_pasted(*old(self), *final(self), x, y),
    {
        let index = match self.current_stamp_index {
            Some(i) => if i < self.stamps.len() {
                i
            } else {
                self.message = owned("No stamp available");
                return;
            },
            None => {
                self.message = owned("No stamp available");
                return;
            },
        };
        let width = self.project.asset.width;
        let height = self.project.asset.height;
        let ghost n = self.project.styles@.len();
        let mut updates: BTreeMap<CellKey, Option<PaintedCell>> = BTreeMap::new();
        let stamp_cells = &self.stamps[index].cells;
        let ghost sc = stamp_cells@;
        let ghost target = paste_updates(sc, x, y, width, height);
        let ghost seq0 = vstd::std_specs::btree::spec_btree_map_iter(stamp_cells).remaining();
        let ghost mut done: Set<CellKey> = Set::empty();
        for entry in it: stamp_cells.iter()
            invariant
                it.seq() == seq0,
                sc == stamp_cells@,
                cells_styled(sc, n),
                target == paste_updates(sc, x, y, width, height),
                forall|k: CellKey| #[trigger] done.contains(k) ==> sc.contains_key(k),
                forall|j: int| 0 <= j < it.index() ==> done.contains(#[trigger] *seq0[j].0),
                forall|k: CellKey| #[trigger] updates@.contains_key(k) <==> (target.contains_key(k) && done.contains(
                    ((k.0 - y) as u16, (k.1 - x) as u16),
                )),
                forall|k: CellKey| #[trigger] updates@.contains_key(k) ==> updates@[k] == target[k],
        {
            let (key, cell) = entry;
            let (relative_y, relative_x) = *key;
            proof {
                let idx = it.index();
                assert(seq0[idx] == entry);
                assert(sc.contains_key(*key) && sc[*key] == *cell);
                done = done.insert(*key);
            }
            match (x.checked_add(relative_x), y.checked_add(relative_y)) {
                (Some(target_x), Some(target_y)) => {
                    if target_x < width && target_y < height {
                        updates.insert((target_y, target_x), Some(*cell));
                    }
                },
                _ => {},
            }
            proof {
                assert forall|k: CellKey| #[trigger] updates@.contains_key(k) <==> (target.contains_key(k) && done.contains(
                    ((k.0 - y) as u16, (k.1 - x) as u16),
                )) by {
                    if target.contains_key(k) && ((k.0 - y) as u16, (k.1 - x) as u16) == *key {
                        assert(k == ((y + relative_y) as u16, (x + relative_x) as u16));
                    }
                }
            }
        }
        proof {
            assert forall|k: CellKey| #[trigger] sc.contains_key(k) implies done.contains(k) by {
                assert(seq0.contains((&k, &sc[k])));
                let j = choose|j: int| 0 <= j < seq0.len() && seq0[j] == (&k, &sc[k]);
                assert(*seq0[j].0 == k);
            }
            assert(updates@ =~= target);
            assert forall|k: CellKey| #[trigger] updates@.contains_key(k) implies opt_styled(updates@[k], n) by {}
        }
        self.apply_cell_updates(updates, "Pasted stamp");
    }
}

/// The stamp cells fit when moved to the clamped destination.
pub open spec fn move_fits(cells: Map<CellKey, PaintedCell>, dest: (u16, u16)) -> bool {
    forall|k: CellKey| #[trigger] cells.contains_key(k) ==> dest.0 + k.1 <= u16::MAX && dest.1 + k.0 <= u16::MAX
}

/// `f` is `o` after moving the selection `source`, whose cells are
/// `cells`, toward `requested`: the destination is clamped to the canvas,
/// the selection follows it, and unless it stays put the move is one edit.
pub open spec fn moved_selection(o: AppState, f: AppState, source: CellRect, cells: Map<CellKey, PaintedCell>, requested: (u16, u16)) -> bool {
    let dest = spec_clamp_destination(source.width, source.height, requested.0, requested.1, o.project.asset.width, o.project.asset.height);
    let rect = CellRect { x: dest.0, y: dest.1, width: source.width, height: source.height };
    let mid = AppState { selection: Some(rect), ..o };
    if dest == (source.x, source.y) {
        &&& f.eq_except_message(mid)
        &&& f.message@ == "Selection unchanged"@
    } else {
        let u = move_updates(source, cells, dest);
        &&& applied(mid, f, u)
        &&& f.message@ == apply_message(mid, u, "Moved selection"@)
    }
}

/// What nudging the selection by `(dx, dy)` does: its cells move that
/// far, kept on the canvas, as one edit.
pub open spec fn selection_nudged(o: AppState, f: AppState, dx: i16, dy: i16) -> bool {
    &&& match o.selection {
        None => f.eq_except_message(o) && f.message == o.message,
        Some(sel) => {
            let max_x = (if o.project.asset.width >= sel.width { o.project.asset.width - sel.width } else { 0 }) as u16;
            let max_y = (if o.project.asset.height >= sel.height { o.project.asset.height - sel.height } else { 0 }) as u16;
            moved_selection(
                o,
                f,
                sel,
                captured(o.cells(), sel),
                (spec_offset_coord(sel.x, dx, max_x), spec_offset_coord(sel.y, dy, max_y)),
            )
        },
    }
}

/// The selection's new place after a nudge by `(dx, dy)` lies on the canvas.
pub open spec fn nudge_fits(o: AppState, dx: i16, dy: i16) -> bool {
    o.selection matches Some(sel) && {
        &&& 0 <= sel.x + dx
        &&& sel.x + dx + sel.width <= o.project.asset.width
        &&& 0 <= sel.y + dy
        &&& sel.y + dy + sel.height <= o.project.asset.height
    }
}

/// Nudging moves the selection by exactly `(dx, dy)` cells when its new
/// place lies on the canvas: the selection keeps its size and lands there,
/// and each painted cell it covered shows at the cell `(dx, dy)` away.
pub proof fn lemma_nudge_moves_by_delta(o: AppState, f: AppState, dx: i16, dy: i16)
    requires
        o.wf(),
        selection_nudged(o, f, dx, dy),
        nudge_fits(o, dx, dy),
    ensures
        f.selection == Some(
            CellRect {
                x: (o.selection->0.x + dx) as u16,
                y: (o.selection->0.y + dy) as u16,
                width: o.selection->0.width,
                height: o.selection->0.height,
            },
        ),
        forall|y: u16, x: u16|
            spec_cell_rect_contains(o.selection->0, x, y) && o.cells().contains_key((y, x)) ==> #[trigger] opt_cell(
                f.cells(),
                ((y + dy) as u16, (x + dx) as u16),
            ) == Some(o.cells()[(y, x)]),
{
    let sel = o.selection->0;
    let w = o.project.asset.width;
    let h = o.project.asset.height;
    let max_x = (if w >= sel.width { w - sel.width } else { 0 }) as u16;
    let max_y = (if h >= sel.height { h - sel.height } else { 0 }) as u16;
    crate::editor::geometry::lemma_offset_moves_by_delta(sel.x, dx, max_x);
    crate::editor::geometry::lemma_offset_moves_by_delta(sel.y, dy, max_y);
    let requested = (spec_offset_coord(sel.x, dx, max_x), spec_offset_coord(sel.y, dy, max_y));
    assert(requested == ((sel.x + dx) as u16, (sel.y + dy) as u16));
    let dest = spec_clamp_destination(sel.width, sel.height, requested.0, requested.1, w, h);
    assert(dest == requested);
    let cells = captured(o.cells(), sel);
    if dest != (sel.x, sel.y) {
        let u = move_updates(sel, cells, dest);
        let rect = CellRect { x: dest.0, y: dest.1, width: sel.width, height: sel.height };
        let mid = AppState { selection: Some(rect), ..o };
        assert(applied(mid, f, u));
        assert forall|y: u16, x: u16| spec_cell_rect_contains(sel, x, y) && o.cells().contains_key((y, x)) implies #[trigger] opt_cell(
            f.cells(),
            ((y + dy) as u16, (x + dx) as u16),
        ) == Some(o.cells()[(y, x)]) by {
            let k: CellKey = ((y + dy) as u16, (x + dx) as u16);
            let rel: CellKey = ((y - sel.y) as u16, (x - sel.x) as u16);
            assert(((k.0 - dest.1) as u16, (k.1 - dest.0) as u16) == rel);
            assert(shifted(rel, sel.x, sel.y) == (y, x));
            assert(cells.contains_key(rel) == o.cells().contains_key((y, x)));
            assert(u.contains_key(k));
        }
    } else {
        assert(dx == 0 && dy == 0);
    }
}

/// What drawing a shape does: the brush is written on its points, as one
/// edit.
pub open spec fn shape_drawn(o: AppState, f: AppState, shape: ShapeDrag) -> bool {
    &&& exists|pts: Set<(u16, u16)>| {
        let u = shape_updates(pts, PaintedCell { ch: o.brush_char, style_index: o.current_style });
        &&& #[trigger] shape_points_ok(shape.tool, shape.start, shape.end, pts)
        &&& applied(o, f, u)
        &&& f.message@ == apply_message(o, u, "Drew shape"@)
    }
}

impl AppState {
    /// Moves the selection `moving.source` to `moving.destination`, clamped
    /// to the canvas: the source area is cleared and its cells written at
    /// the destination, as one edit.
    pub fn commit_selection_move(&mut self, moving: MovingSelection)
        requires
            old(self).wf(),
            cells_styled(moving.stamp.cells@, old(self).project.styles@.len()),
            move_fits(
                moving.stamp.cells@,
                spec_clamp_destination(
                    moving.source.width,
                    moving.source.height,
                    moving.destination.0,
                    moving.destination.1,
                    old(self).project.asset.width,
                    old(self).project.asset.height,
                ),
            ),
        ensures
            final(self).wf(),
            moved_selection(*old(self), *final(self), moving.source, moving.stamp.cells@, moving.destination),
    {
        let ghost n = self.project.styles@.len();
        let source = moving.source;
        let destination = self.clamp_rect_destination(source.width, source.height, moving.destination.0, moving.destination.1);
        let moved_rect = CellRect { x: destination.0, y: destination.1, width: source.width, height: source.height };
        self.selection = Some(moved_rect);
        if destination.0 == source.x && destination.1 == source.y {
            self.message = owned("Selection unchanged");
            return;
        }
        let mut updates = clear_rect_updates(source);
        let cells = &moving.stamp.cells;
        let ghost sc = cells@;
        let ghost dest = destination;
        let ghost seq0 = vstd::std_specs::btree::spec_btree_map_iter(cells).remaining();
        let ghost mut done: Set<CellKey> = Set::empty();
        for entry in it: cells.iter()
            invariant
                it.seq() == seq0,
                sc == cells@,
                dest == destination,
                move_fits(sc, dest),
                forall|k: CellKey| #[trigger] done.contains(k) ==> sc.contains_key(k),
                forall|j: int| 0 <= j < it.index() ==> done.contains(#[trigger] *seq0[j].0),
                forall|k: CellKey| #[trigger] updates@.contains_key(k) <==> (spec_cell_rect_contains(source, k.1, k.0)
                    || (k.0 >= dest.1 && k.1 >= dest.0 && done.contains(((k.0 - dest.1) as u16, (k.1 - dest.0) as u16)))),
                forall|k: CellKey| #[trigger] updates@.contains_key(k) ==> updates@[k] == if k.0 >= dest.1 && k.1 >= dest.0
                    && done.contains(((k.0 - dest.1) as u16, (k.1 - dest.0) as u16)) {
                    Some(sc[((k.0 - dest.1) as u16, (k.1 - dest.0) as u16)])
                } else {
                    None::<PaintedCell>
                },
        {
            let (key, cell) = entry;
            let (relative_y, relative_x) = *key;
            proof {
                let idx = it.index();
                assert(seq0[idx] == entry);
                assert(sc.contains_key(*key) && sc[*key] == *cell);
                done = done.insert(*key);
            }
            let target_x = destination.0 + relative_x;
            let target_y = destination.1 + relative_y;
            updates.insert((target_y, target_x), Some(*cell));
            proof {
                assert forall|k: CellKey| #[trigger] updates@.contains_key(k) <==> (spec_cell_rect_contains(source, k.1, k.0)
                    || (k.0 >= dest.1 && k.1 >= dest.0 && done.contains(((k.0 - dest.1) as u16, (k.1 - dest.0) as u16)))) by {
                    if k.0 >= dest.1 && k.1 >= dest.0 && ((k.0 - dest.1) as u16, (k.1 - dest.0) as u16) == *key {
                        assert(k == (target_y, target_x));
                    }
                }
                assert forall|k: CellKey| #[trigger] updates@.contains_key(k) implies updates@[k] == if k.0 >= dest.1 && k.1 >= dest.0
                    && done.contains(((k.0 - dest.1) as u16, (k.1 - dest.0) as u16)) {
                    Some(sc[((k.0 - dest.1) as u16, (k.1 - dest.0) as u16)])
                } else {
                    None::<PaintedCell>
                } by {
                    if k.0 >= dest.1 && k.1 >= dest.0 && ((k.0 - dest.1) as u16, (k.1 - dest.0) as u16) == *key {
                        assert(k == (target_y, target_x));
                    }
                }
            }
        }
        proof {
            assert forall|k: CellKey| #[trigger] sc.contains_key(k) implies done.contains(k) by {
                assert(seq0.contains((&k, &sc[k])));
                let j = choose|j: int| 0 <= j < seq0.len() && seq0[j] == (&k, &sc[k]);
                assert(*seq0[j].0 == k);
            }
            assert(updates@ =~= move_updates(source, sc, dest));
            assert forall|k: CellKey| #[trigger] updates@.contains_key(k) implies opt_styled(updates@[k], n) by {}
        }
        self.apply_cell_updates(updates, "Moved selection");
    }

    /// Whether arrow keys move the selection: the selection tool is active
    /// and something is selected.
    pub fn can_nudge_selection(&self) -> (r: bool)
        ensures
            r == (self.tool == Tool::Selection && self.selection is Some),
    {
        self.tool == Tool::Selection && self.selection.is_some()
    }

    /// Moves the selection by `(dx, dy)` cells, kept on the canvas.
    pub fn nudge_selection(&mut self, dx: i16, dy: i16)
        requires
            old(self).wf(),
        ensures
            final(self).wf(),
            selection_nudged(*old(self), *final(self), dx, dy),
    {
        let ghost before_state = *self;
        let selection = match self.selection {
            Some(s) => s,
            None => {
                return;
            },
        };
        let stamp = self.capture_rect(selection);
        let max_x = self.project.asset.width.saturating_sub(selection.width);
        let max_y = self.project.asset.height.saturating_sub(selection.height);
        let destination = (offset_coord(selection.x, dx, max_x), offset_coord(selection.y, dy, max_y));
        proof {
            let cw = self.project.asset.width;
            let ch = self.project.asset.height;
            let d = spec_clamp_destination(selection.width, selection.height, destination.0, destination.1, cw, ch);
            assert forall|k: CellKey| #[trigger] stamp.cells@.contains_key(k) implies d.0 + k.1 <= u16::MAX && d.1 + k.0 <= u16::MAX by {
                assert(k.1 < selection.width);
                assert(k.0 < selection.height);
            }
            assert(cells_styled(stamp.cells@, self.project.styles@.len())) by {
                assert forall|k: CellKey| #[trigger] stamp.cells@.contains_key(k) implies stamp.cells@[k].style_index < self.project.styles@.len() by {
                    assert(self.cells().contains_key(shifted(k, selection.x, selection.y)));
                }
            }
        }
        let ghost cells = stamp.cells@;
        self.commit_selection_move(MovingSelection { source: selection, stamp, grab_offset: (0, 0), destination });
        proof {
            assert(moved_selection(before_state, *self, selection, captured(before_state.cells(), selection), destination));
        }
    }

    /// Writes `text` rightward from `(x, y)` in the current style as one
    /// edit, stopping at the canvas edge and saying so when it clips.
    pub fn place_text(&mut self, x: u16, y: u16, text: &str)
        requires
            old(self).wf(),
        ensures
            final(self).wf(),
            ({
                let u = text_updates(text@, x, y, old(self).current_style, old(self).project.asset.width, old(self).project.asset.height);
                let fit = text_fit(text@.len(), x, y, old(self).project.asset.width, old(self).project.asset.height);
                &&& applied(*old(self), *final(self), u)
                &&& final(self).message@ == if fit < text@.len() {
                    "Placed text ("@ + decimal_text(fit) + " chars, clipped)"@
                } else {
                    apply_message(*old(self), u, "Placed text"@)
                }
            }),
    {
        let chars = chars_of(text);
        let width = self.project.asset.width;
        let height = self.project.asset.height;
        let style = self.current_style;
        let ghost target = text_updates(text@, x, y, style, width, height);
        let ghost fit = text_fit(text@.len(), x, y, width, height);
        let mut updates: BTreeMap<CellKey, Option<PaintedCell>> = BTreeMap::new();
        let mut written: usize = 0;
        proof {
            assert forall|k: CellKey| #[trigger] updates@.contains_key(k) <==> (target.contains_key(k) && k.1 - x < written) by {
                if target.contains_key(k) {
                    assert(k.1 >= x);
                }
            }
        }
        while written < chars.len()
            invariant
                chars@ == text@,
                written <= chars@.len(),
                written <= fit,
                target == text_updates(text@, x, y, style, width, height),
                fit == text_fit(text@.len(), x, y, width, height),
                forall|k: CellKey| #[trigger] updates@.contains_key(k) <==> (target.contains_key(k) && k.1 - x < written),
                forall|k: CellKey| #[trigger] updates@.contains_key(k) ==> updates@[k] == target[k],
            ensures
                written == fit,
                forall|k: CellKey| #[trigger] updates@.contains_key(k) <==> (target.contains_key(k) && k.1 - x < written),
                forall|k: CellKey| #[trigger] updates@.contains_key(k) ==> updates@[k] == target[k],
            decreases chars.len() - written,
        {
            if (x as usize) + written >= (width as usize) || y >= height {
                break;
            }
            let target_x = x + (written as u16);
            let ghost before_updates = updates@;
            updates.insert((y, target_x), Some(PaintedCell { ch: chars[written], style_index: style }));
            proof {
                assert(target_x - x == written);
                assert(y < height && target_x < width);
                assert(target.contains_key((y, target_x)));
                assert(target[(y, target_x)] == Some(painted(text@[written as int], style)));
                assert forall|k: CellKey| #[trigger] updates@.contains_key(k) <==> (target.contains_key(k) && k.1 - x < written + 1) by {
                    if k != (y, target_x) {
                        assert(updates@.contains_key(k) == before_updates.contains_key(k));
                        if target.contains_key(k) && k.1 - x == written {
                            assert(k.0 == y);
                            assert(k.1 == target_x);
                        }
                    }
                }
            }
            written += 1;
        }
        proof {
            assert forall|k: CellKey| #[trigger] target.contains_key(k) implies k.1 - x < written by {
                assert(k.1 - x < fit);
            }
            assert(updates@ =~= target);
            assert forall|k: CellKey| #[trigger] updates@.contains_key(k) implies opt_styled(updates@[k], self.project.styles@.len()) by {}
        }
        self.apply_cell_updates(updates, "Placed text");
        if written < chars.len() {
            let mut m = owned("Placed text (");
            push_str(&mut m, decimal_string(written as u64).as_str());
            push_str(&mut m, " chars, clipped)");
            self.message = m;
        }
    }

    /// Paints the brush over the points of a line or rectangle drag as one
    /// edit.
    pub fn draw_shape(&mut self, shape: ShapeDrag)
        requires
            old(self).wf(),
            corners_ok(shape.start, shape.end),
        ensures
            final(self).wf(),
            shape_drawn(*old(self), *final(self), shape),
    {
        let points = shape_points(shape.tool, shape.start, shape.end);
        let cell = PaintedCell { ch: self.brush_char, style_index: self.current_style };
        let mut updates: BTreeMap<CellKey, Option<PaintedCell>> = BTreeMap::new();
        let ghost seq0 = vstd::std_specs::btree::spec_btree_keys_iter(&points).remaining();
        let ghost mut done: Set<(u16, u16)> = Set::empty();
        for p in it: points.iter()
            invariant
                it.seq() == seq0,
                forall|q: (u16, u16)| #[trigger] done.contains(q) ==> points@.contains(q),
                forall|j: int| 0 <= j < it.index() ==> done.contains(*#[trigger] seq0[j]),
                forall|k: CellKey| #[trigger] updates@.contains_key(k) <==> done.contains((k.1, k.0)),
                forall|k: CellKey| #[trigger] updates@.contains_key(k) ==> updates@[k] == Some(cell),
        {
            let (px, py) = *p;
            proof {
                let idx = it.index();
                assert(seq0[idx] == p);
                assert(seq0.unref().to_set().contains(*p));
                assert(seq0.unref().contains(*p));
                done = done.insert(*p);
            }
            updates.insert((py, px), Some(cell));
        }
        proof {
            assert forall|q: (u16, u16)| #[trigger] points@.contains(q) implies done.contains(q) by {
                assert(seq0.unref().to_set().contains(q));
                assert(seq0.unref().contains(q));
                let j = choose|j: int| 0 <= j < seq0.unref().len() && seq0.unref()[j] == q;
                assert(*seq0[j] == q);
            }
            assert(updates@ =~= shape_updates(points@, cell));
            assert forall|k: CellKey| #[trigger] updates@.contains_key(k) implies opt_styled(updates@[k], self.project.styles@.len()) by {}
        }
        self.apply_cell_updates(updates, "Drew shape");
    }
}

} // verus!
