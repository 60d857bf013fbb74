use std::collections::BTreeMap;
use vstd::prelude::*;

use crate::model::{CellKey, PaintedCell};

verus! {

/// One cell's value before and after an edit; `None` is transparent.
#[derive(Debug, Clone, Copy, PartialEq, Eq)]
pub struct CellChange {
    pub before: Option<PaintedCell>,
    pub after: Option<PaintedCell>,
}

/// The change of one cell from `before` to `after`.
pub open spec fn change(before: Option<PaintedCell>, after: Option<PaintedCell>) -> CellChange {
    CellChange { before, after }
}

/// One undoable edit: the cells it changed in one frame.
#[derive(Debug, Clone, Default)]
pub struct Stroke {
    pub frame_index: usize,
    pub changes: BTreeMap<CellKey, CellChange>,
}

impl Stroke {
    /// An edit of frame `frame_index` that changes nothing yet.
    pub fn new(frame_index: usize) -> (s: Self)
        ensures
            s.frame_index == frame_index,
            s.changes@ == Map::<CellKey, CellChange>::empty(),
    {
        Stroke { frame_index, changes: BTreeMap::new() }
    }
}

/// The cell at `k`, or `None` where it is transparent.
pub open spec fn opt_cell(m: Map<CellKey, PaintedCell>, k: CellKey) -> Option<PaintedCell> {
    if m.contains_key(k) {
        Some(m[k])
    } else {
        None
    }
}

/// `m` with the cell at `k` set to `v` (removed for `None`).
pub open spec fn set_cell(m: Map<CellKey, PaintedCell>, k: CellKey, v: Option<PaintedCell>) -> Map<CellKey, PaintedCell> {
    match v {
        Some(c) => m.insert(k, c),
        None => m.remove(k),
    }
}

/// `m` with every cell that `u` names set to its value there.
pub open spec fn apply_updates(m: Map<CellKey, PaintedCell>, u: Map<CellKey, Option<PaintedCell>>) -> Map<CellKey, PaintedCell> {
    Map::new(
        |k: CellKey| if u.contains_key(k) { u[k] is Some } else { m.contains_key(k) },
        |k: CellKey| if u.contains_key(k) { u[k].unwrap() } else { m[k] },
    )
}

/// The changes that applying `u` to `m` makes: the cells where the new
/// value differs from the old one.
pub open spec fn changes_of(m: Map<CellKey, PaintedCell>, u: Map<CellKey, Option<PaintedCell>>) -> Map<CellKey, CellChange> {
    Map::new(
        |k: CellKey| u.contains_key(k) && opt_cell(m, k) != u[k],
        |k: CellKey| change(opt_cell(m, k), u[k]),
    )
}

/// `m` with every changed cell set back to its value before the change.
pub open spec fn revert(m: Map<CellKey, PaintedCell>, c: Map<CellKey, CellChange>) -> Map<CellKey, PaintedCell> {
    Map::new(
        |k: CellKey| if c.contains_key(k) { c[k].before is Some } else { m.contains_key(k) },
        |k: CellKey| if c.contains_key(k) { c[k].before.unwrap() } else { m[k] },
    )
}

/// `m` with every changed cell set to its value after the change.
pub open spec fn reapply(m: Map<CellKey, PaintedCell>, c: Map<CellKey, CellChange>) -> Map<CellKey, PaintedCell> {
    Map::new(
        |k: CellKey| if c.contains_key(k) { c[k].after is Some } else { m.contains_key(k) },
        |k: CellKey| if c.contains_key(k) { c[k].after.unwrap() } else { m[k] },
    )
}

/// `m` holds the values the changes left behind.
pub open spec fn shows_after(m: Map<CellKey, PaintedCell>, c: Map<CellKey, CellChange>) -> bool {
    forall|k: CellKey| #[trigger] c.contains_key(k) ==> opt_cell(m, k) == c[k].after
}

/// `m` holds the values the changes started from.
pub open spec fn shows_before(m: Map<CellKey, PaintedCell>, c: Map<CellKey, CellChange>) -> bool {
    forall|k: CellKey| #[trigger] c.contains_key(k) ==> opt_cell(m, k) == c[k].before
}

/// Every recorded change really changed its cell.
pub open spec fn all_effective(c: Map<CellKey, CellChange>) -> bool {
    forall|k: CellKey| #[trigger] c.contains_key(k) ==> c[k].before != c[k].after
}

/// Applying updates and then undoing the changes they made gives back the
/// cells as they were.
pub proof fn lemma_edit_then_undo(m: Map<CellKey, PaintedCell>, u: Map<CellKey, Option<PaintedCell>>)
    ensures
        revert(apply_updates(m, u), changes_of(m, u)) == m,
        shows_after(apply_updates(m, u), changes_of(m, u)),
        shows_before(m, changes_of(m, u)),
        all_effective(changes_of(m, u)),
{
    let m2 = apply_updates(m, u);
    let c = changes_of(m, u);
    let r = revert(m2, c);
    assert forall|k: CellKey| #[trigger] r.contains_key(k) == m.contains_key(k) by {}
    assert forall|k: CellKey| r.contains_key(k) implies #[trigger] r[k] == m[k] by {}
    assert(r =~= m);
}

/// Undoing changes that a frame shows and then redoing them gives back the
/// frame as it was.
pub proof fn lemma_undo_then_redo(m: Map<CellKey, PaintedCell>, c: Map<CellKey, CellChange>)
    requires
        shows_after(m, c),
    ensures
        reapply(revert(m, c), c) == m,
        shows_before(revert(m, c), c),
{
    let r = reapply(revert(m, c), c);
    assert forall|k: CellKey| #[trigger] r.contains_key(k) == m.contains_key(k) by {
        if c.contains_key(k) {
            assert(opt_cell(m, k) == c[k].after);
        }
    }
    assert forall|k: CellKey| r.contains_key(k) implies #[trigger] r[k] == m[k] by {
        if c.contains_key(k) {
            assert(opt_cell(m, k) == c[k].after);
        }
    }
    assert(r =~= m);
}

/// Redoing changes that a frame was reverted to and then undoing them gives
/// back the frame as it was.
pub proof fn lemma_redo_then_undo(m: Map<CellKey, PaintedCell>, c: Map<CellKey, CellChange>)
    requires
        shows_before(m, c),
    ensures
        revert(reapply(m, c), c) == m,
        shows_after(reapply(m, c), c),
{
    let r = revert(reapply(m, c), c);
    assert forall|k: CellKey| #[trigger] r.contains_key(k) == m.contains_key(k) by {
        if c.contains_key(k) {
            assert(opt_cell(m, k) == c[k].before);
        }
    }
    assert forall|k: CellKey| r.contains_key(k) implies #[trigger] r[k] == m[k] by {
        if c.contains_key(k) {
            assert(opt_cell(m, k) == c[k].before);
        }
    }
    assert(r =~= m);
}

/// A rectangle of copied cells, keyed by `(y, x)` relative to its corner.
#[derive(Debug, Clone, PartialEq, Eq)]
pub struct Stamp {
    pub width: u16,
    pub height: u16,
    pub cells: BTreeMap<CellKey, PaintedCell>,
}

} // verus!
