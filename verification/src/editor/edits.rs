use std::collections::{BTreeMap, BTreeSet, VecDeque};
use vstd::prelude::*;
use vstd::std_specs::iter::IteratorSpec;

use crate::editor::history::{
    lemma_edit_then_undo, lemma_undo_then_redo, all_effective, apply_updates, change, changes_of, opt_cell, reapply, revert, set_cell, shows_after,
    shows_before, CellChange, Stroke,
};
use crate::editor::state::{cells_styled, changes_styled, frames_styled, opt_styled, strokes_styled, AppState};
use crate::model::{CellKey, PaintedCell};
use crate::text::{decimal_string, decimal_text, owned, push_str};

verus! {

broadcast use vstd::std_specs::btree::group_btree_axioms;

/// The changes that really changed their cell.
pub open spec fn effective(c: Map<CellKey, CellChange>) -> Map<CellKey, CellChange> {
    Map::new(|k: CellKey| c.contains_key(k) && c[k].before != c[k].after, |k: CellKey| c[k])
}

/// Whether two optional cells are equal.
pub fn same_opt_cell(a: Option<PaintedCell>, b: Option<PaintedCell>) -> (r: bool)
    ensures
        r == (a == b),
{
    match (a, b) {
        (None, None) => true,
        (Some(x), Some(y)) => x.ch == y.ch && x.style_index == y.style_index,
        _ => false,
    }
}

/// The cell at `key` of `cells`.
pub fn lookup_cell(cells: &BTreeMap<CellKey, PaintedCell>, key: CellKey) -> (r: Option<PaintedCell>)
    ensures
        r == opt_cell(cells@, key),
{
    match cells.get(&key) {
        Some(c) => Some(*c),
        None => None,
    }
}

/// Sets or clears the cell at `key`.
pub fn write_cell(cells: &mut BTreeMap<CellKey, PaintedCell>, key: CellKey, value: Option<PaintedCell>)
    ensures
        final(cells)@ == set_cell(old(cells)@, key, value),
{
    match value {
        Some(c) => {
            cells.insert(key, c);
        },
        None => {
            cells.remove(&key);
        },
    }
}

/// The message an edit applying `u` to `o` shows: `message`, or a note
/// that nothing changed.
pub open spec fn apply_message(o: AppState, u: Map<CellKey, Option<PaintedCell>>, message: Seq<char>) -> Seq<char> {
    if changes_of(o.cells(), u).dom().len() == 0 {
        "No cells changed"@
    } else {
        message
    }
}

/// `f` is `o` after applying `u` to the current frame as one edit.
pub open spec fn applied(o: AppState, f: AppState, u: Map<CellKey, Option<PaintedCell>>) -> bool {
    let i = o.current_frame_index as int;
    let m = o.cells();
    let c = changes_of(m, u);
    &&& f.current_frame_index == o.current_frame_index
    &&& f.project_edits_frame(o, i)
    &&& f.cells() == apply_updates(m, u)
    &&& f.screen == o.screen
    &&& f.file_path == o.file_path
    &&& f.eq_tools(o)
    &&& f.onion_skin == o.onion_skin
    &&& f.eq_selection(o)
    &&& f.eq_view(o)
    &&& f.active_stroke == o.active_stroke
    &&& f.modal == o.modal
    &&& f.should_quit == o.should_quit
    &&& if c.dom().len() == 0 {
        &&& f.undo_stack == o.undo_stack
        &&& f.redo_stack == o.redo_stack
        &&& f.dirty == o.dirty
    } else {
        &&& f.undo_stack@.len() == o.undo_stack@.len() + 1
        &&& f.undo_stack@.drop_last() == o.undo_stack@
        &&& f.undo_stack@.last().frame_index == i
        &&& f.undo_stack@.last().changes@ == c
        &&& f.redo_stack@.len() == 0
        &&& f.dirty
    }
}

/// `f` is `o` after undoing its last edit, if any.
pub open spec fn undone(o: AppState, f: AppState) -> bool {
    &&& f.screen == o.screen
    &&& f.file_path == o.file_path
    &&& f.eq_tools(o)
    &&& f.onion_skin == o.onion_skin
    &&& f.eq_selection(o)
    &&& f.eq_view(o)
    &&& f.active_stroke == o.active_stroke
    &&& f.modal == o.modal
    &&& f.should_quit == o.should_quit
    &&& o.undo_stack@.len() == 0 ==> {
        &&& f.project == o.project
        &&& f.current_frame_index == o.current_frame_index
        &&& f.undo_stack@ == o.undo_stack@
        &&& f.redo_stack@ == o.redo_stack@
        &&& f.dirty == o.dirty
        &&& f.message@ == "Nothing to undo"@
    }
    &&& o.undo_stack@.len() > 0 ==> {
        let s = o.undo_stack@.last();
        let i: int = if s.frame_index < o.project.frames@.len() {
            s.frame_index as int
        } else {
            o.project.frames@.len() - 1
        };
        &&& f.current_frame_index == i
        &&& f.project_edits_frame(o, i)
        &&& f.cells() == revert(o.project.frames@[i].cells@, s.changes@)
        &&& f.undo_stack@ == o.undo_stack@.drop_last()
        &&& f.redo_stack@ == o.redo_stack@.push(s)
        &&& f.dirty
        &&& f.message@ == "Undo"@
    }
}

/// `f` is `o` after redoing its last undone edit, if any.
pub open spec fn redone(o: AppState, f: AppState) -> bool {
    &&& f.screen == o.screen
    &&& f.file_path == o.file_path
    &&& f.eq_tools(o)
    &&& f.onion_skin == o.onion_skin
    &&& f.eq_selection(o)
    &&& f.eq_view(o)
    &&& f.active_stroke == o.active_stroke
    &&& f.modal == o.modal
    &&& f.should_quit == o.should_quit
    &&& o.redo_stack@.len() == 0 ==> {
        &&& f.project == o.project
        &&& f.current_frame_index == o.current_frame_index
        &&& f.undo_stack@ == o.undo_stack@
        &&& f.redo_stack@ == o.redo_stack@
        &&& f.dirty == o.dirty
        &&& f.message@ == "Nothing to redo"@
    }
    &&& o.redo_stack@.len() > 0 ==> {
        let s = o.redo_stack@.last();
        let i: int = if s.frame_index < o.project.frames@.len() {
            s.frame_index as int
        } else {
            o.project.frames@.len() - 1
        };
        &&& f.current_frame_index == i
        &&& f.project_edits_frame(o, i)
        &&& f.cells() == reapply(o.project.frames@[i].cells@, s.changes@)
        &&& f.redo_stack@ == o.redo_stack@.drop_last()
        &&& f.undo_stack@ == o.undo_stack@.push(s)
        &&& f.dirty
        &&& f.message@ == "Redo"@
    }
}

impl AppState {
    /// Applies `updates` to the current frame as one undoable edit, and
    /// shows `message`; updates that change nothing are not recorded, and
    /// when nothing changes at all the history is left alone.
    pub fn apply_cell_updates(&mut self, updates: BTreeMap<CellKey, Option<PaintedCell>>, message: &str)
        requires
            old(self).wf(),
            forall|k: CellKey| #[trigger] updates@.contains_key(k) ==> opt_styled(updates@[k], old(self).project.styles@.len()),
        ensures
            final(self).wf(),
            applied(*old(self), *final(self), updates@),
            final(self).message@ == apply_message(*old(self), updates@, message@),
    {
        let frame_index = self.current_frame_index;
        let ghost m0 = self.cells();
        let ghost n = self.project.styles@.len();
        let ghost before_state = *self;
        let mut stroke = Stroke::new(frame_index);
        let ghost seq0 = vstd::std_specs::btree::spec_btree_map_iter(&updates).remaining();
        let ghost mut done: Set<CellKey> = Set::empty();
        for entry in it: updates.iter()
            invariant
                it.seq() == seq0,
                seq0.no_duplicates(),
                frame_index == before_state.current_frame_index,
                self.current_frame_index == frame_index,
                m0 == before_state.cells(),
                n == before_state.project.styles@.len(),
                before_state.wf(),
                self.eq_except_project(before_state),
                self.project_edits_frame(before_state, frame_index as int),
                stroke.frame_index == frame_index,
                forall|k: CellKey| #[trigger] updates@.contains_key(k) ==> opt_styled(updates@[k], n),
                forall|k: CellKey| #[trigger] done.contains(k) <==> exists|j: int| 0 <= j < it.index() && *seq0[j].0 == k,
                forall|k: CellKey| #[trigger] done.contains(k) ==> updates@.contains_key(k),
                forall|k: CellKey| #[trigger] opt_cell(self.cells(), k) == if done.contains(k) {
                    updates@[k]
                } else {
                    opt_cell(m0, k)
                },
                forall|k: CellKey| #[trigger] stroke.changes@.contains_key(k) <==> (done.contains(k) && opt_cell(m0, k) != updates@[k]),
                forall|k: CellKey| #[trigger] stroke.changes@.contains_key(k) ==> stroke.changes@[k] == change(opt_cell(m0, k), updates@[k]),
        {
            let (key, after) = entry;
            let key = *key;
            let after = *after;
            proof {
                let idx = it.index();
                assert(seq0[idx] == entry);
                assert(updates@.contains_key(key) && updates@[key] == after);
                assert(!done.contains(key)) by {
                    if done.contains(key) {
                        let j = choose|j: int| 0 <= j < idx && *seq0[j].0 == key;
                        assert(seq0[j] != seq0[idx]);
                    }
                }
                assert(opt_cell(self.cells(), key) == opt_cell(m0, key));
            }
            let before = lookup_cell(&self.project.frames[frame_index].cells, key);
            let ghost cells_before = self.cells();
            let ghost done_before = done;
            proof {
                done = done.insert(key);
            }
            if !same_opt_cell(before, after) {
                stroke.changes.insert(key, CellChange { before, after });
                write_cell(&mut self.project.frames[frame_index].cells, key, after);
            }
            proof {
                assert forall|k: CellKey| #[trigger] opt_cell(self.cells(), k) == if done.contains(k) {
                    updates@[k]
                } else {
                    opt_cell(m0, k)
                } by {
                    if k != key {
                        assert(done.contains(k) == done_before.contains(k));
                        assert(opt_cell(self.cells(), k) == opt_cell(cells_before, k));
                    } else {
                        assert(done.contains(k));
                    }
                }
            }
        }
        proof {
            assert forall|k: CellKey| #[trigger] updates@.contains_key(k) implies done.contains(k) by {
                assert(seq0.contains((&k, &updates@[k])));
                let j = choose|j: int| 0 <= j < seq0.len() && seq0[j] == (&k, &updates@[k]);
                assert(*seq0[j].0 == k);
            }
            assert(stroke.changes@ =~= changes_of(m0, updates@));
            assert(self.cells() =~= apply_updates(m0, updates@)) by {
                assert forall|k: CellKey| #[trigger] self.cells().contains_key(k) == apply_updates(m0, updates@).contains_key(k) by {
                    assert(opt_cell(self.cells(), k) is Some == self.cells().contains_key(k));
                }
                assert forall|k: CellKey| self.cells().contains_key(k) implies #[trigger] self.cells()[k] == apply_updates(m0, updates@)[k] by {
                    assert(opt_cell(self.cells(), k) is Some == self.cells().contains_key(k));
                }
            }
            assert forall|f: int| 0 <= f < self.project.frames@.len() implies cells_styled((#[trigger] self.project.frames@[f]).cells@, n) by {
                if f == frame_index as int {
                    assert forall|k: CellKey| #[trigger] self.project.frames@[f].cells@.contains_key(k) implies self.project.frames@[f].cells@[k].style_index < n by {
                        assert(opt_cell(self.cells(), k) is Some == self.cells().contains_key(k));
                        assert(before_state.project.frames@[f].cells@ == m0);
                    }
                } else {
                    assert(self.project.frames@[f] == before_state.project.frames@[f]);
                }
            }
            assert(changes_styled(stroke.changes@, n)) by {
                assert forall|k: CellKey| #[trigger] stroke.changes@.contains_key(k) implies opt_styled(stroke.changes@[k].before, n)
                    && opt_styled(stroke.changes@[k].after, n) by {
                    assert(before_state.project.frames@[frame_index as int].cells@ == m0);
                }
            }
        }
        if stroke.changes.is_empty() {
            proof {
                assert(changes_of(m0, updates@).dom() =~= Set::<CellKey>::empty());
            }
            self.message = owned("No cells changed");
            return;
        }
        proof {
            assert(changes_of(m0, updates@).dom().len() != 0) by {
                let k = choose|k: CellKey| stroke.changes@.contains_key(k);
                assert(stroke.changes@.dom().contains(k));
            }
        }
        self.undo_stack.push(stroke);
        self.redo_stack.clear();
        self.dirty = true;
        self.message = owned(message);
        proof {
            assert(self.undo_stack@.drop_last() =~= before_state.undo_stack@);
            assert forall|i: int| 0 <= i < self.undo_stack@.len() implies changes_styled((#[trigger] self.undo_stack@[i]).changes@, n) by {
                if i < before_state.undo_stack@.len() {
                    assert(self.undo_stack@[i] == before_state.undo_stack@[i]);
                }
            }
        }
    }
}

/// `new_undo` is `old_undo` with the finished form of `s` on top, where
/// finishing drops the changes that changed nothing and records nothing
/// when no change is left.
pub open spec fn pushed_finished(new_undo: Seq<Stroke>, old_undo: Seq<Stroke>, s: Stroke) -> bool {
    if effective(s.changes@).dom().len() == 0 {
        new_undo == old_undo
    } else {
        &&& new_undo.len() == old_undo.len() + 1
        &&& new_undo.drop_last() == old_undo
        &&& new_undo.last().frame_index == s.frame_index
        &&& new_undo.last().changes@ == effective(s.changes@)
    }
}

/// Sets every changed cell of `cells` back to its value before the change,
/// or forward to its value after it.
pub fn restore_cells(cells: &mut BTreeMap<CellKey, PaintedCell>, changes: &BTreeMap<CellKey, CellChange>, backward: bool)
    ensures
        final(cells)@ == if backward { revert(old(cells)@, changes@) } else { reapply(old(cells)@, changes@) },
{
    let ghost m0 = cells@;
    let ghost seq0 = vstd::std_specs::btree::spec_btree_map_iter(changes).remaining();
    let ghost mut done: Set<CellKey> = Set::empty();
    for entry in it: changes.iter()
        invariant
            it.seq() == seq0,
            seq0.no_duplicates(),
            forall|k: CellKey| #[trigger] done.contains(k) <==> exists|j: int| 0 <= j < it.index() && *seq0[j].0 == k,
            forall|k: CellKey| #[trigger] done.contains(k) ==> changes@.contains_key(k),
            forall|k: CellKey| #[trigger] opt_cell(cells@, k) == if done.contains(k) {
                if backward { changes@[k].before } else { changes@[k].after }
            } else {
                opt_cell(m0, k)
            },
    {
        let (key, change_ref) = entry;
        let key = *key;
        let value = if backward { change_ref.before } else { change_ref.after };
        proof {
            let idx = it.index();
            assert(seq0[idx] == entry);
            assert(changes@.contains_key(key) && changes@[key] == *change_ref);
        }
        let ghost cells_before = cells@;
        let ghost done_before = done;
        write_cell(cells, key, value);
        proof {
            done = done.insert(key);
            assert forall|k: CellKey| #[trigger] opt_cell(cells@, k) == if done.contains(k) {
                if backward { changes@[k].before } else { changes@[k].after }
            } else {
                opt_cell(m0, k)
            } by {
                if k != key {
                    assert(done.contains(k) == done_before.contains(k));
                    assert(opt_cell(cells@, k) == opt_cell(cells_before, k));
                }
            }
        }
    }
    proof {
        assert forall|k: CellKey| #[trigger] changes@.contains_key(k) implies done.contains(k) by {
            assert(seq0.contains((&k, &changes@[k])));
            let j = choose|j: int| 0 <= j < seq0.len() && seq0[j] == (&k, &changes@[k]);
            assert(*seq0[j].0 == k);
        }
        let target = if backward { revert(m0, changes@) } else { reapply(m0, changes@) };
        assert forall|k: CellKey| #[trigger] cells@.contains_key(k) == target.contains_key(k) by {
            assert(opt_cell(cells@, k) is Some == cells@.contains_key(k));
        }
        assert forall|k: CellKey| cells@.contains_key(k) implies #[trigger] cells@[k] == target[k] by {
            assert(opt_cell(cells@, k) is Some == cells@.contains_key(k));
        }
        assert(cells@ =~= target);
    }
}

/// The changes of `c` that really changed their cell.
pub fn effective_changes(c: &BTreeMap<CellKey, CellChange>) -> (r: BTreeMap<CellKey, CellChange>)
    ensures
        r@ == effective(c@),
{
    let mut out: BTreeMap<CellKey, CellChange> = BTreeMap::new();
    let ghost seq0 = vstd::std_specs::btree::spec_btree_map_iter(c).remaining();
    for entry in it: c.iter()
        invariant
            it.seq() == seq0,
            forall|k: CellKey| #[trigger] out@.contains_key(k) <==> (exists|j: int| 0 <= j < it.index() && *seq0[j].0 == k)
                && c@[k].before != c@[k].after,
            forall|k: CellKey| #[trigger] out@.contains_key(k) ==> c@.contains_key(k) && out@[k] == c@[k],
    {
        let (key, ch) = entry;
        proof {
            let idx = it.index();
            assert(seq0[idx] == entry);
            assert(c@.contains_key(*key) && c@[*key] == *ch);
        }
        if !same_opt_cell(ch.before, ch.after) {
            out.insert(*key, *ch);
        }
        proof {
            let idx = it.index();
            assert forall|k: CellKey| #[trigger] out@.contains_key(k) <==> (exists|j: int| 0 <= j < idx + 1 && *seq0[j].0 == k)
                && c@[k].before != c@[k].after by {
                if k == *key {
                    assert(*seq0[idx].0 == k);
                } else {
                    if exists|j: int| 0 <= j < idx + 1 && *seq0[j].0 == k {
                        let j = choose|j: int| 0 <= j < idx + 1 && *seq0[j].0 == k;
                        assert(j != idx);
                    }
                }
            }
        }
    }
    proof {
        assert forall|k: CellKey| #[trigger] effective(c@).contains_key(k) implies out@.contains_key(k) by {
            assert(seq0.contains((&k, &c@[k])));
            let j = choose|j: int| 0 <= j < seq0.len() && seq0[j] == (&k, &c@[k]);
            assert(*seq0[j].0 == k);
        }
        assert(out@ =~= effective(c@));
    }
    out
}

impl AppState {
    /// Ends the stroke in progress: its changes that changed something become
    /// one undoable edit.
    pub fn finish_stroke(&mut self)
        requires
            old(self).wf(),
        ensures
            final(self).wf(),
            final(self).active_stroke is None,
            final(self).project == old(self).project,
            final(self).current_frame_index == old(self).current_frame_index,
            final(self).screen == old(self).screen,
            final(self).file_path == old(self).file_path,
            final(self).dirty == old(self).dirty,
            final(self).eq_tools(*old(self)),
            final(self).onion_skin == old(self).onion_skin,
            final(self).eq_selection(*old(self)),
            final(self).eq_view(*old(self)),
            final(self).redo_stack == old(self).redo_stack,
            final(self).modal == old(self).modal,
            final(self).should_quit == old(self).should_quit,
            match old(self).active_stroke {
                None => final(self).undo_stack == old(self).undo_stack && final(self).message == old(self).message,
                Some(s) => {
                    &&& pushed_finished(final(self).undo_stack@, old(self).undo_stack@, s)
                    &&& final(self).message@ == if effective(s.changes@).dom().len() == 0 {
                        old(self).message@
                    } else {
                        "Stroke applied"@
                    }
                },
            },
    {
        let ghost n = self.project.styles@.len();
        let stroke = match self.active_stroke.take() {
            Some(s) => s,
            None => {
                return;
            },
        };
        let changes = effective_changes(&stroke.changes);
        if changes.is_empty() {
            proof {
                assert(effective(stroke.changes@).dom() =~= Set::<CellKey>::empty());
            }
            return;
        }
        proof {
            let k = choose|k: CellKey| changes@.contains_key(k);
            assert(effective(stroke.changes@).dom().contains(k));
            assert(effective(stroke.changes@).dom().len() != 0);
        }
        let ghost old_undo = self.undo_stack@;
        self.undo_stack.push(Stroke { frame_index: stroke.frame_index, changes });
        self.message = owned("Stroke applied");
        proof {
            assert(self.undo_stack@.drop_last() =~= old_undo);
            assert forall|i: int| 0 <= i < self.undo_stack@.len() implies changes_styled((#[trigger] self.undo_stack@[i]).changes@, n) by {
                if i < old_undo.len() {
                    assert(self.undo_stack@[i] == old_undo[i]);
                }
            }
        }
    }

    /// Undoes the last edit: its frame becomes current and gets back the
    /// cells it had before; the edit moves to the redo history.
    pub fn undo(&mut self)
        requires
            old(self).wf(),
        ensures
            final(self).wf(),
            undone(*old(self), *final(self)),
    {
        let ghost before_state = *self;
        let ghost n = self.project.styles@.len();
        let stroke = match self.undo_stack.pop() {
            Some(s) => s,
            None => {
                self.message = owned("Nothing to undo");
                return;
            },
        };
        let last = self.project.frames.len() - 1;
        let frame_index = if stroke.frame_index < last { stroke.frame_index } else { last };
        self.current_frame_index = frame_index;
        restore_cells(&mut self.project.frames[frame_index].cells, &stroke.changes, true);
        proof {
            assert(changes_styled(stroke.changes@, n)) by {
                assert(before_state.undo_stack@[before_state.undo_stack@.len() - 1] == stroke);
            }
            assert forall|f: int| 0 <= f < self.project.frames@.len() implies cells_styled((#[trigger] self.project.frames@[f]).cells@, n) by {
                if f != frame_index as int {
                    assert(self.project.frames@[f] == before_state.project.frames@[f]);
                } else {
                    assert(cells_styled(before_state.project.frames@[f].cells@, n));
                }
            }
            assert forall|i: int| 0 <= i < self.undo_stack@.len() implies changes_styled((#[trigger] self.undo_stack@[i]).changes@, n) by {
                assert(self.undo_stack@[i] == before_state.undo_stack@[i]);
            }
        }
        self.redo_stack.push(stroke);
        self.dirty = true;
        self.message = owned("Undo");
        proof {
            assert forall|i: int| 0 <= i < self.redo_stack@.len() implies changes_styled((#[trigger] self.redo_stack@[i]).changes@, n) by {
                if i < before_state.redo_stack@.len() {
                    assert(self.redo_stack@[i] == before_state.redo_stack@[i]);
                }
            }
        }
    }

    /// Redoes the last undone edit: its frame becomes current and gets the
    /// cells the edit left; the edit moves back to the undo history.
    pub fn redo(&mut self)
        requires
            old(self).wf(),
        ensures
            final(self).wf(),
            redone(*old(self), *final(self)),
    {
        let ghost before_state = *self;
        let ghost n = self.project.styles@.len();
        let stroke = match self.redo_stack.pop() {
            Some(s) => s,
            None => {
                self.message = owned("Nothing to redo");
                return;
            },
        };
        let last = self.project.frames.len() - 1;
        let frame_index = if stroke.frame_index < last { stroke.frame_index } else { last };
        self.current_frame_index = frame_index;
        restore_cells(&mut self.project.frames[frame_index].cells, &stroke.changes, false);
        proof {
            assert(changes_styled(stroke.changes@, n)) by {
                assert(before_state.redo_stack@[before_state.redo_stack@.len() - 1] == stroke);
            }
            assert forall|f: int| 0 <= f < self.project.frames@.len() implies cells_styled((#[trigger] self.project.frames@[f]).cells@, n) by {
                if f != frame_index as int {
                    assert(self.project.frames@[f] == before_state.project.frames@[f]);
                } else {
                    assert(cells_styled(before_state.project.frames@[f].cells@, n));
                }
            }
            assert forall|i: int| 0 <= i < self.redo_stack@.len() implies changes_styled((#[trigger] self.redo_stack@[i]).changes@, n) by {
                assert(self.redo_stack@[i] == before_state.redo_stack@[i]);
            }
        }
        self.undo_stack.push(stroke);
        self.dirty = true;
        self.message = owned("Redo");
        proof {
            assert forall|i: int| 0 <= i < self.undo_stack@.len() implies changes_styled((#[trigger] self.undo_stack@[i]).changes@, n) by {
                if i < before_state.undo_stack@.len() {
                    assert(self.undo_stack@[i] == before_state.undo_stack@[i]);
                }
            }
        }
    }
}

/// Redo gives back what undo took: after an edit, an undo and a redo, the
/// edited frame is current and holds the edited cells again, and the undo
/// history is as it was right after the edit.
pub proof fn lemma_redo_restores_edit(
    a: AppState,
    b: AppState,
    c: AppState,
    d: AppState,
    u: Map<CellKey, Option<PaintedCell>>,
)
    requires
        a.wf(),
        applied(a, b, u),
        changes_of(a.cells(), u).dom().len() != 0,
        undone(b, c),
        redone(c, d),
    ensures
        d.current_frame_index == b.current_frame_index,
        d.cells() == b.cells(),
        d.project_edits_frame(b, b.current_frame_index as int),
        d.undo_stack@ == b.undo_stack@,
        d.redo_stack@ == b.redo_stack@,
{
    lemma_edit_then_undo(a.cells(), u);
    let i = a.current_frame_index as int;
    let s = b.undo_stack@.last();
    assert(s.frame_index == i);
    assert(b.project.frames@[i].cells@ == apply_updates(a.cells(), u));
    lemma_undo_then_redo(b.cells(), s.changes@);
    assert(c.redo_stack@.last() == s);
    assert(d.undo_stack@ =~= b.undo_stack@);
    assert(d.redo_stack@ =~= b.redo_stack@);
}

/// The stroke in progress after painting `after` at `key` over cells `m`,
/// starting from the changes `base`: the first value the stroke saw at a
/// cell stays its `before`.
pub open spec fn stroke_after_paint(
    base: Map<CellKey, CellChange>,
    m: Map<CellKey, PaintedCell>,
    key: CellKey,
    after: Option<PaintedCell>,
) -> Map<CellKey, CellChange> {
    if opt_cell(m, key) == after {
        base
    } else {
        base.insert(
            key,
            change(if base.contains_key(key) { base[key].before } else { opt_cell(m, key) }, after),
        )
    }
}

impl AppState {
    /// Paints `after` (or clears, for `None`) the cell at `(x, y)` of the
    /// current frame as part of the stroke in progress, starting a stroke
    /// when there is none and finishing one left on another frame.
    pub fn set_cell_for_stroke(&mut self, x: u16, y: u16, after: Option<PaintedCell>)
        requires
            old(self).wf(),
            opt_styled(after, old(self).project.styles@.len()),
        ensures
            final(self).wf(),
            ({
                let key = (y, x);
                let fi = old(self).current_frame_index;
                let m = old(self).cells();
                let restart = old(self).active_stroke matches Some(s) && s.frame_index != fi;
                let base = match old(self).active_stroke {
                    Some(s) => if s.frame_index == fi { s.changes@ } else { Map::<CellKey, CellChange>::empty() },
                    None => Map::<CellKey, CellChange>::empty(),
                };
                let changed = opt_cell(m, key) != after;
                &&& final(self).current_frame_index == fi
                &&& final(self).project_edits_frame(*old(self), fi as int)
                &&& final(self).cells() == set_cell(m, key, after)
                &&& final(self).active_stroke matches Some(s) && s.frame_index == fi && s.changes@ == stroke_after_paint(base, m, key, after)
                &&& (restart ==> pushed_finished(final(self).undo_stack@, old(self).undo_stack@, old(self).active_stroke.unwrap()))
                &&& (!restart ==> final(self).undo_stack == old(self).undo_stack)
                &&& final(self).redo_stack@ == if changed { Seq::<Stroke>::empty() } else { old(self).redo_stack@ }
                &&& final(self).dirty == (changed || old(self).dirty)
                &&& final(self).message@ == if restart && effective(old(self).active_stroke.unwrap().changes@).dom().len() != 0 {
                    "Stroke applied"@
                } else {
                    old(self).message@
                }
                &&& final(self).screen == old(self).screen
                &&& final(self).file_path == old(self).file_path
                &&& final(self).eq_tools(*old(self))
                &&& final(self).onion_skin == old(self).onion_skin
                &&& final(self).eq_selection(*old(self))
                &&& final(self).eq_view(*old(self))
                &&& final(self).modal == old(self).modal
                &&& final(self).should_quit == old(self).should_quit
            }),
    {
        let ghost before_state = *self;
        let ghost n = self.project.styles@.len();
        let frame_index = self.current_frame_index;
        let restart = match &self.active_stroke {
            Some(s) => s.frame_index != frame_index,
            None => false,
        };
        if restart {
            self.finish_stroke();
        }
        let mut stroke = match self.active_stroke.take() {
            Some(s) => s,
            None => Stroke::new(frame_index),
        };
        let key = (y, x);
        let before = lookup_cell(&self.project.frames[frame_index].cells, key);
        if same_opt_cell(before, after) {
            self.active_stroke = Some(stroke);
            proof {
                assert(set_cell(before_state.cells(), key, after) =~= before_state.cells());
            }
            return;
        }
        let first_before = match stroke.changes.get(&key) {
            Some(c) => c.before,
            None => before,
        };
        stroke.changes.insert(key, CellChange { before: first_before, after });
        self.active_stroke = Some(stroke);
        write_cell(&mut self.project.frames[frame_index].cells, key, after);
        self.dirty = true;
        self.redo_stack.clear();
        proof {
            assert forall|f: int| 0 <= f < self.project.frames@.len() implies cells_styled((#[trigger] self.project.frames@[f]).cells@, n) by {
                if f != frame_index as int {
                    assert(self.project.frames@[f] == before_state.project.frames@[f]);
                } else {
                    assert(cells_styled(before_state.project.frames@[f].cells@, n));
                }
            }
            assert(cells_styled(before_state.cells(), n));
        }
    }
}

/// A finite set of cell positions has at most `65536 * 65536` members.
pub proof fn lemma_positions_bounded(s: Set<(u16, u16)>)
    requires
        s.finite(),
    ensures
        s.len() <= 4294967296,
{
    let f = |p: (u16, u16)| (p.1 as int) * 65536 + (p.0 as int);
    let img = s.map(f);
    assert(vstd::relations::injective_on(f, s)) by {
        assert forall|a: (u16, u16), b: (u16, u16)| s.contains(a) && s.contains(b) && #[trigger] f(a) == #[trigger] f(b) implies a == b by {
            assert(a.1 == b.1 && a.0 == b.0) by (nonlinear_arith)
                requires
                    (a.1 as int) * 65536 + (a.0 as int) == (b.1 as int) * 65536 + (b.0 as int),
                    0 <= a.0 < 65536, 0 <= b.0 < 65536, 0 <= a.1 < 65536, 0 <= b.1 < 65536;
        }
    }
    vstd::set_lib::lemma_map_size(s, img, f);
    let range = vstd::set_lib::set_int_range(0, 4294967296);
    assert(img.subset_of(range)) by {
        assert forall|v: int| img.contains(v) implies range.contains(v) by {
            let p = choose|p: (u16, u16)| s.contains(p) && f(p) == v;
            assert(0 <= (p.1 as int) * 65536 + (p.0 as int) < 4294967296) by (nonlinear_arith)
                requires 0 <= p.0 < 65536, 0 <= p.1 < 65536;
        }
    }
    vstd::set_lib::lemma_int_range(0, 4294967296);
    vstd::set_lib::lemma_len_subset(img, range);
}

/// Every cell the fill changed has each neighbor the fill spreads to (left,
/// up, right, down, inside a `w` by `h` canvas) either changed too or not
/// holding the fill's target value `t` in `m`.
pub open spec fn fill_closed(c: Map<CellKey, CellChange>, m: Map<CellKey, PaintedCell>, t: Option<PaintedCell>, w: u16, h: u16) -> bool {
    forall|k: CellKey| #[trigger] c.contains_key(k) ==> {
        &&& (k.1 > 0 ==> (c.contains_key((k.0, (k.1 - 1) as u16)) || opt_cell(m, (k.0, (k.1 - 1) as u16)) != t))
        &&& (k.0 > 0 ==> (c.contains_key(((k.0 - 1) as u16, k.1)) || opt_cell(m, ((k.0 - 1) as u16, k.1)) != t))
        &&& (k.1 + 1 < w ==> (c.contains_key((k.0, (k.1 + 1) as u16)) || opt_cell(m, (k.0, (k.1 + 1) as u16)) != t))
        &&& (k.0 + 1 < h ==> (c.contains_key(((k.0 + 1) as u16, k.1)) || opt_cell(m, ((k.0 + 1) as u16, k.1)) != t))
    }
}

/// Every changed cell's neighbors are either visited or still queued.
pub open spec fn fill_frontier(c: Map<CellKey, CellChange>, visited: Set<(u16, u16)>, queue: Seq<(u16, u16)>, w: u16, h: u16) -> bool {
    forall|k: CellKey| #[trigger] c.contains_key(k) ==> {
        &&& (k.1 > 0 ==> (visited.contains(((k.1 - 1) as u16, k.0)) || queue.contains(((k.1 - 1) as u16, k.0))))
        &&& (k.0 > 0 ==> (visited.contains((k.1, (k.0 - 1) as u16)) || queue.contains((k.1, (k.0 - 1) as u16))))
        &&& (k.1 + 1 < w ==> (visited.contains(((k.1 + 1) as u16, k.0)) || queue.contains(((k.1 + 1) as u16, k.0))))
        &&& (k.0 + 1 < h ==> (visited.contains((k.1, (k.0 + 1) as u16)) || queue.contains((k.1, (k.0 + 1) as u16))))
    }
}

/// `k` is in `s`; the trigger for spreading through a region.
pub open spec fn in_region(s: Set<CellKey>, k: CellKey) -> bool {
    s.contains(k)
}

/// `s` holds the start cell and, with each of its cells, every neighbor on
/// the canvas that holds `t`.
pub open spec fn spreads_within(
    m: Map<CellKey, PaintedCell>,
    t: Option<PaintedCell>,
    w: u16,
    h: u16,
    start: CellKey,
    s: Set<CellKey>,
) -> bool {
    &&& s.contains(start)
    &&& forall|k: CellKey| #[trigger] in_region(s, k) ==> {
        &&& (k.1 > 0 && opt_cell(m, (k.0, (k.1 - 1) as u16)) == t ==> s.contains((k.0, (k.1 - 1) as u16)))
        &&& (k.0 > 0 && opt_cell(m, ((k.0 - 1) as u16, k.1)) == t ==> s.contains(((k.0 - 1) as u16, k.1)))
        &&& (k.1 + 1 < w && opt_cell(m, (k.0, (k.1 + 1) as u16)) == t ==> s.contains((k.0, (k.1 + 1) as u16)))
        &&& (k.0 + 1 < h && opt_cell(m, ((k.0 + 1) as u16, k.1)) == t ==> s.contains(((k.0 + 1) as u16, k.1)))
    }
}

/// `k` is connected to `start` through neighbors holding `t`: it lies in
/// every set that holds the start and spreads that way.
pub open spec fn fill_reaches(
    m: Map<CellKey, PaintedCell>,
    t: Option<PaintedCell>,
    w: u16,
    h: u16,
    start: CellKey,
    k: CellKey,
) -> bool {
    forall|s: Set<CellKey>| #[trigger] spreads_within(m, t, w, h, start, s) ==> s.contains(k)
}

/// A queued position, when it holds `t`, is connected to the start.
pub open spec fn queued_ok(
    m: Map<CellKey, PaintedCell>,
    t: Option<PaintedCell>,
    w: u16,
    h: u16,
    start: CellKey,
    p: (u16, u16),
) -> bool {
    opt_cell(m, (p.1, p.0)) == t ==> fill_reaches(m, t, w, h, start, (p.1, p.0))
}

/// `n` is a neighbor of `k` on a `w` by `h` canvas.
pub open spec fn is_neighbor(k: CellKey, n: CellKey, w: u16, h: u16) -> bool {
    ||| k.1 > 0 && n == (k.0, (k.1 - 1) as u16)
    ||| k.0 > 0 && n == ((k.0 - 1) as u16, k.1)
    ||| k.1 + 1 < w && n == (k.0, (k.1 + 1) as u16)
    ||| k.0 + 1 < h && n == ((k.0 + 1) as u16, k.1)
}

/// A neighbor holding `t` of a cell connected to the start is connected
/// to it too.
proof fn lemma_neighbor_reaches(
    m: Map<CellKey, PaintedCell>,
    t: Option<PaintedCell>,
    w: u16,
    h: u16,
    start: CellKey,
    k: CellKey,
    n: CellKey,
)
    requires
        fill_reaches(m, t, w, h, start, k),
        is_neighbor(k, n, w, h),
    ensures
        opt_cell(m, n) == t ==> fill_reaches(m, t, w, h, start, n),
{
    if opt_cell(m, n) == t {
        assert forall|s: Set<CellKey>| #[trigger] spreads_within(m, t, w, h, start, s) implies s.contains(n) by {
            assert(s.contains(k));
            assert(in_region(s, k));
        }
    }
}

/// `f` is `o` after a flood fill from `(x, y)` with the brush: the cells
/// changed are those holding the start cell's old value, starting with the
/// start cell and spreading to every matching neighbor; they form one edit.
pub open spec fn filled(o: AppState, f: AppState, x: u16, y: u16) -> bool {
    let m = o.cells();
    let t = opt_cell(m, (y, x));
    let r = Some(PaintedCell { ch: o.brush_char, style_index: o.current_style });
    &&& f.current_frame_index == o.current_frame_index
    &&& f.project_edits_frame(o, o.current_frame_index as int)
    &&& f.screen == o.screen
    &&& f.file_path == o.file_path
    &&& f.eq_tools(o)
    &&& f.onion_skin == o.onion_skin
    &&& f.eq_selection(o)
    &&& f.eq_view(o)
    &&& f.modal == o.modal
    &&& f.should_quit == o.should_quit
    &&& if t == r {
        &&& f.project == o.project
        &&& f.undo_stack == o.undo_stack
        &&& f.redo_stack == o.redo_stack
        &&& f.active_stroke == o.active_stroke
        &&& f.dirty == o.dirty
        &&& f.message@ == "Fill target already matches brush"@
    } else {
        let c = f.undo_stack@.last().changes@;
        &&& f.active_stroke is None
        &&& f.undo_stack@.len() == o.undo_stack@.len() + 1
        &&& f.undo_stack@.drop_last() == o.undo_stack@
        &&& f.undo_stack@.last().frame_index == o.current_frame_index
        &&& c.contains_key((y, x))
        &&& forall|k: CellKey| #[trigger] c.contains_key(k) ==> c[k] == change(t, r)
        &&& forall|k: CellKey| #[trigger] opt_cell(f.cells(), k) == if c.contains_key(k) { r } else { opt_cell(m, k) }
        &&& fill_closed(c, m, t, o.project.asset.width, o.project.asset.height)
        &&& forall|k: CellKey| #[trigger] c.contains_key(k) ==> fill_reaches(
            m,
            t,
            o.project.asset.width,
            o.project.asset.height,
            (y, x),
            k,
        )
        &&& f.redo_stack@.len() == 0
        &&& f.dirty
        &&& f.message@ == "Filled "@ + decimal_text(c.dom().len()) + " cells"@
    }
}

impl AppState {
    /// Flood-fills from `(x, y)` with the brush character and current style:
    /// every cell connected to the start through left, right, up and down
    /// neighbors holding the start cell's value is painted, as one edit.
    pub fn fill_at(&mut self, x: u16, y: u16)
        requires
            old(self).wf(),
            x < u16::MAX,
            y < u16::MAX,
        ensures
            final(self).wf(),
            filled(*old(self), *final(self), x, y),
    {
        let ghost before_state = *self;
        let ghost m = self.cells();
        let ghost n = self.project.styles@.len();
        let target = self.cell_at((y, x));
        let replacement = Some(PaintedCell { ch: self.brush_char, style_index: self.current_style });
        if same_opt_cell(target, replacement) {
            self.message = owned("Fill target already matches brush");
            return;
        }
        let frame_index = self.current_frame_index;
        let width = self.project.asset.width;
        let height = self.project.asset.height;
        self.active_stroke = Some(Stroke::new(frame_index));
        let mut queue: VecDeque<(u16, u16)> = VecDeque::new();
        queue.push_back((x, y));
        proof {
            assert(queue@[0] == (x, y));
            assert forall|s: Set<CellKey>| #[trigger] spreads_within(m, target, width, height, (y, x), s) implies s.contains(
                (y, x),
            ) by {}
            assert(queued_ok(m, target, width, height, (y, x), queue@[0]));
        }
        let mut visited: BTreeSet<(u16, u16)> = BTreeSet::new();
        let mut filled_count: u64 = 0;
        let ghost start_state = *self;
        loop
            invariant
                before_state.wf(),
                m == before_state.cells(),
                n == before_state.project.styles@.len(),
                target == opt_cell(m, (y, x)),
                replacement == Some(PaintedCell { ch: before_state.brush_char, style_index: before_state.current_style }),
                target != replacement,
                width == before_state.project.asset.width,
                height == before_state.project.asset.height,
                frame_index == before_state.current_frame_index,
                self.wf(),
                self.current_frame_index == frame_index,
                self.project_edits_frame(before_state, frame_index as int),
                self.screen == before_state.screen,
                self.file_path == before_state.file_path,
                self.eq_tools(before_state),
                self.onion_skin == before_state.onion_skin,
                self.eq_selection(before_state),
                self.eq_view(before_state),
                self.modal == before_state.modal,
                self.should_quit == before_state.should_quit,
                self.message@ == before_state.message@,
                self.undo_stack == before_state.undo_stack,
                self.redo_stack@ == if filled_count == 0 { before_state.redo_stack@ } else { Seq::<Stroke>::empty() },
                self.dirty == (filled_count > 0 || before_state.dirty),
                self.active_stroke is Some,
                self.active_stroke.unwrap().frame_index == frame_index,
                forall|k: CellKey| #[trigger] self.active_stroke.unwrap().changes@.contains_key(k)
                    ==> self.active_stroke.unwrap().changes@[k] == change(target, replacement),
                forall|k: CellKey| #[trigger] opt_cell(self.cells(), k) == if self.active_stroke.unwrap().changes@.contains_key(k) {
                    replacement
                } else {
                    opt_cell(m, k)
                },
                forall|k: CellKey| #[trigger] self.active_stroke.unwrap().changes@.contains_key(k) ==> visited@.contains((k.1, k.0)),
                forall|p: (u16, u16)| #[trigger] visited@.contains(p) ==> (self.active_stroke.unwrap().changes@.contains_key((p.1, p.0))
                    <==> opt_cell(m, (p.1, p.0)) == target),
                fill_frontier(self.active_stroke.unwrap().changes@, visited@, queue@, width, height),
                forall|k: CellKey| #[trigger] self.active_stroke.unwrap().changes@.contains_key(k) ==> fill_reaches(
                    m,
                    target,
                    width,
                    height,
                    (y, x),
                    k,
                ),
                forall|i: int| 0 <= i < queue@.len() ==> queued_ok(m, target, width, height, (y, x), #[trigger] queue@[i]),
                filled_count == self.active_stroke.unwrap().changes@.dom().len(),
                self.active_stroke.unwrap().changes@.dom().finite(),
                visited@.contains((x, y)) || queue@.contains((x, y)),
                visited@.finite(),
                forall|i: int| 0 <= i < queue@.len() ==> (#[trigger] queue@[i]).0 < u16::MAX && queue@[i].1 < u16::MAX,
                x < u16::MAX,
                y < u16::MAX,
            ensures
                queue@.len() == 0,
                before_state.wf(),
                self.wf(),
                self.current_frame_index == frame_index,
                self.project_edits_frame(before_state, frame_index as int),
                self.eq_tools(before_state),
                self.eq_selection(before_state),
                self.eq_view(before_state),
                self.screen == before_state.screen,
                self.file_path == before_state.file_path,
                self.onion_skin == before_state.onion_skin,
                self.modal == before_state.modal,
                self.should_quit == before_state.should_quit,
                self.message@ == before_state.message@,
                self.undo_stack == before_state.undo_stack,
                self.redo_stack@ == if filled_count == 0 { before_state.redo_stack@ } else { Seq::<Stroke>::empty() },
                self.dirty == (filled_count > 0 || before_state.dirty),
                visited@.contains((x, y)),
                self.active_stroke is Some,
                self.active_stroke.unwrap().frame_index == frame_index,
                forall|k: CellKey| #[trigger] self.active_stroke.unwrap().changes@.contains_key(k)
                    ==> self.active_stroke.unwrap().changes@[k] == change(target, replacement),
                forall|k: CellKey| #[trigger] opt_cell(self.cells(), k) == if self.active_stroke.unwrap().changes@.contains_key(k) {
                    replacement
                } else {
                    opt_cell(m, k)
                },
                forall|p: (u16, u16)| #[trigger] visited@.contains(p) ==> (self.active_stroke.unwrap().changes@.contains_key((p.1, p.0))
                    <==> opt_cell(m, (p.1, p.0)) == target),
                fill_frontier(self.active_stroke.unwrap().changes@, visited@, queue@, width, height),
                forall|k: CellKey| #[trigger] self.active_stroke.unwrap().changes@.contains_key(k) ==> fill_reaches(
                    m,
                    target,
                    width,
                    height,
                    (y, x),
                    k,
                ),
                filled_count == self.active_stroke.unwrap().changes@.dom().len(),
            decreases 5 * (4294967296 - visited@.len()) + queue@.len(),
        {
            proof {
                crate::editor::edits::lemma_positions_bounded(visited@);
            }
            let ghost old_queue = queue@;
            let point = match queue.pop_front() {
                Some(p) => p,
                None => {
                    break;
                },
            };
            let ghost queue_after_pop = queue@;
            proof {
                assert forall|i: int| 0 <= i < queue@.len() implies queued_ok(
                    m,
                    target,
                    width,
                    height,
                    (y, x),
                    #[trigger] queue@[i],
                ) by {
                    assert(queue@[i] == old_queue[i + 1]);
                }
                assert(point == old_queue[0]);
                assert(queued_ok(m, target, width, height, (y, x), old_queue[0]));
            }
            let (cx, cy) = point;
            proof {
                assert(cx < u16::MAX && cy < u16::MAX);
            }
            let ghost queue_before_pop = old_queue;
            let ghost visited_before = visited@;
            let ghost changes_before = self.active_stroke.unwrap().changes@;
            if !visited.insert((cx, cy)) {
                proof {
                    assert forall|q: (u16, u16)| old_queue.contains(q) implies visited@.contains(q) || queue@.contains(q) by {
                        let i = choose|i: int| 0 <= i < old_queue.len() && old_queue[i] == q;
                        if i > 0 {
                            assert(queue@[i - 1] == q);
                        }
                    }
                    assert forall|i: int| 0 <= i < queue@.len() implies (#[trigger] queue@[i]).0 < u16::MAX && queue@[i].1 < u16::MAX by {
                        assert(queue@[i] == old_queue[i + 1]);
                    }
                }
                continue;
            }
            proof {
                lemma_positions_bounded(visited@);
                assert forall|q: (u16, u16)| old_queue.contains(q) implies visited@.contains(q) || queue@.contains(q) by {
                    let i = choose|i: int| 0 <= i < old_queue.len() && old_queue[i] == q;
                    if i > 0 {
                        assert(queue@[i - 1] == q);
                    }
                }
                assert forall|i: int| 0 <= i < queue@.len() implies (#[trigger] queue@[i]).0 < u16::MAX && queue@[i].1 < u16::MAX by {
                    assert(queue@[i] == old_queue[i + 1]);
                }
                assert(!changes_before.contains_key((cy, cx)));
            }
            let current = self.cell_at((cy, cx));
            if !same_opt_cell(current, target) {
                continue;
            }
            let ghost cells_before = self.cells();
            proof {
                lemma_positions_bounded(changes_before.dom());
            }
            self.set_cell_for_stroke(cx, cy, replacement);
            proof {
                assert(opt_cell(m, (cy, cx)) == target);
                assert(fill_reaches(m, target, width, height, (y, x), (cy, cx)));
                let c = self.active_stroke.unwrap().changes@;
                assert(c == changes_before.insert((cy, cx), change(target, replacement)));
                assert(c.dom() =~= changes_before.dom().insert((cy, cx)));
                assert forall|k: CellKey| #[trigger] opt_cell(self.cells(), k) == if c.contains_key(k) {
                    replacement
                } else {
                    opt_cell(m, k)
                } by {
                    if k != (cy, cx) {
                        assert(opt_cell(self.cells(), k) == opt_cell(cells_before, k));
                        assert(c.contains_key(k) == changes_before.contains_key(k));
                    }
                }
            }
            filled_count = filled_count + 1;
            let ghost queue_mid = queue@;
            if cx > 0 {
                let next: (u16, u16) = (cx - 1, cy);
                proof {
                    lemma_push_keeps(queue@, next);
                    lemma_neighbor_reaches(m, target, width, height, (y, x), (cy, cx), (cy, (cx - 1) as u16));
                    lemma_push_queued(m, target, width, height, (y, x), queue@, next);
                }
                queue.push_back(next);
            }
            if cy > 0 {
                let next: (u16, u16) = (cx, cy - 1);
                proof {
                    lemma_push_keeps(queue@, next);
                    lemma_neighbor_reaches(m, target, width, height, (y, x), (cy, cx), ((cy - 1) as u16, cx));
                    lemma_push_queued(m, target, width, height, (y, x), queue@, next);
                }
                queue.push_back(next);
            }
            if cx + 1 < width {
                let next: (u16, u16) = (cx + 1, cy);
                proof {
                    lemma_push_keeps(queue@, next);
                    lemma_neighbor_reaches(m, target, width, height, (y, x), (cy, cx), (cy, (cx + 1) as u16));
                    lemma_push_queued(m, target, width, height, (y, x), queue@, next);
                }
                queue.push_back(next);
            }
            if cy + 1 < height {
                let next: (u16, u16) = (cx, cy + 1);
                proof {
                    lemma_push_keeps(queue@, next);
                    lemma_neighbor_reaches(m, target, width, height, (y, x), (cy, cx), ((cy + 1) as u16, cx));
                    lemma_push_queued(m, target, width, height, (y, x), queue@, next);
                }
                queue.push_back(next);
            }
            proof {
                let c = self.active_stroke.unwrap().changes@;
                assert(forall|q: (u16, u16)| #[trigger] queue_mid.contains(q) ==> queue@.contains(q));
                assert forall|i: int| 0 <= i < queue@.len() implies (#[trigger] queue@[i]).0 < u16::MAX && queue@[i].1 < u16::MAX by {
                    if i < queue_mid.len() {
                        assert(queue@[i] == queue_mid[i]);
                    }
                }
                assert forall|k: CellKey| #[trigger] c.contains_key(k) implies {
                    &&& (k.1 > 0 ==> (visited@.contains(((k.1 - 1) as u16, k.0)) || queue@.contains(((k.1 - 1) as u16, k.0))))
                    &&& (k.0 > 0 ==> (visited@.contains((k.1, (k.0 - 1) as u16)) || queue@.contains((k.1, (k.0 - 1) as u16))))
                    &&& (k.1 + 1 < width ==> (visited@.contains(((k.1 + 1) as u16, k.0)) || queue@.contains(((k.1 + 1) as u16, k.0))))
                    &&& (k.0 + 1 < height ==> (visited@.contains((k.1, (k.0 + 1) as u16)) || queue@.contains((k.1, (k.0 + 1) as u16))))
                } by {
                    if k != (cy, cx) {
                        assert(changes_before.contains_key(k));
                    }
                }
                assert(visited@.contains((x, y)) || queue@.contains((x, y)));
            }
        }
        let ghost c_active = self.active_stroke.unwrap().changes@;
        proof {
            assert(opt_cell(m, (y, x)) == target);
            assert(c_active.contains_key((y, x)));
            assert(effective(c_active) =~= c_active);
            assert(effective(c_active).dom().contains((y, x)));
            assert(effective(c_active).dom().len() != 0);
            assert forall|k: CellKey| #[trigger] c_active.contains_key(k) implies {
                &&& (k.1 > 0 ==> (c_active.contains_key((k.0, (k.1 - 1) as u16)) || opt_cell(m, (k.0, (k.1 - 1) as u16)) != target))
                &&& (k.0 > 0 ==> (c_active.contains_key(((k.0 - 1) as u16, k.1)) || opt_cell(m, ((k.0 - 1) as u16, k.1)) != target))
                &&& (k.1 + 1 < width ==> (c_active.contains_key((k.0, (k.1 + 1) as u16)) || opt_cell(m, (k.0, (k.1 + 1) as u16)) != target))
                &&& (k.0 + 1 < height ==> (c_active.contains_key(((k.0 + 1) as u16, k.1)) || opt_cell(m, ((k.0 + 1) as u16, k.1)) != target))
            } by {
                if k.1 > 0 {
                    assert(!queue@.contains(((k.1 - 1) as u16, k.0)));
                    assert(visited@.contains(((k.1 - 1) as u16, k.0)));
                }
                if k.0 > 0 {
                    assert(!queue@.contains((k.1, (k.0 - 1) as u16)));
                    assert(visited@.contains((k.1, (k.0 - 1) as u16)));
                }
                if k.1 + 1 < width {
                    assert(!queue@.contains(((k.1 + 1) as u16, k.0)));
                    assert(visited@.contains(((k.1 + 1) as u16, k.0)));
                }
                if k.0 + 1 < height {
                    assert(!queue@.contains((k.1, (k.0 + 1) as u16)));
                    assert(visited@.contains((k.1, (k.0 + 1) as u16)));
                }
            }
        }
        let ghost cells_final = self.cells();
        proof {
            assert forall|k: CellKey| #[trigger] opt_cell(cells_final, k) == if c_active.contains_key(k) {
                replacement
            } else {
                opt_cell(m, k)
            } by {}
        }
        self.finish_stroke();
        proof {
            assert(self.undo_stack@.last().changes@ == c_active);
            assert(self.cells() == cells_final);
        }
        let mut text = owned("Filled ");
        push_str(&mut text, decimal_string(filled_count).as_str());
        push_str(&mut text, " cells");
        self.message = text;
    }
}

/// Pushing a position that passes `queued_ok` keeps every queued position
/// passing it.
proof fn lemma_push_queued(
    m: Map<CellKey, PaintedCell>,
    t: Option<PaintedCell>,
    w: u16,
    h: u16,
    start: CellKey,
    q: Seq<(u16, u16)>,
    next: (u16, u16),
)
    requires
        forall|i: int| 0 <= i < q.len() ==> queued_ok(m, t, w, h, start, #[trigger] q[i]),
        queued_ok(m, t, w, h, start, next),
    ensures
        forall|i: int| 0 <= i < q.push(next).len() ==> queued_ok(m, t, w, h, start, #[trigger] q.push(next)[i]),
{
    assert forall|i: int| 0 <= i < q.push(next).len() implies queued_ok(m, t, w, h, start, #[trigger] q.push(next)[i]) by {
        if i < q.len() {
            assert(q.push(next)[i] == q[i]);
        }
    }
}

/// Pushing onto a sequence keeps what it held and adds the new item.
proof fn lemma_push_keeps<T>(s: Seq<T>, v: T)
    ensures
        s.push(v).contains(v),
        forall|q: T| #[trigger] s.contains(q) ==> s.push(v).contains(q),
{
    assert(s.push(v)[s.len() as int] == v);
    assert forall|q: T| #[trigger] s.contains(q) implies s.push(v).contains(q) by {
        let i = choose|i: int| 0 <= i < s.len() && s[i] == q;
        assert(s.push(v)[i] == q);
    }
}

} // verus!
