# terminal_animator

A terminal editor for character-cell art and animations, stored as
`.tanim.toml` documents. The library under `src/` is written in Verus: every
function carries a contract, and Verus proves the code meets it.

## Layout

- `src/model.rs`, `src/raw.rs`: the document model and the document as read
  from a file, before validation.
- `src/validate.rs`: validation of a read document into a project, with the
  exact conditions under which it is accepted, how frames are composed from
  runs and cells, and the warnings it reports.
- `src/export.rs`, `src/ansi.rs`, `src/order.rs`: the canonical save form,
  plain-text export and ANSI export.
- `src/roundtrip.rs`: the proof that saving a project and reading it back
  gives the same project.
- `src/unicode.rs`, `src/text.rs`: which characters a document may hold, and
  string helpers.
- `src/editor/`: the editor's state and everything it does in reply to keys
  and the mouse: painting, flood fill, undo and redo, selections and stamps,
  styles and colors, frames, dialogs, and the layout of the screen that the
  mouse logic reads back.
- `app/`: the program around the library: the command line, files, the
  terminal, and drawing with ratatui.
- `tests/`: tests of the library on concrete documents and editor states.

## Laws

Besides the contracts of each function, the library proves laws that
relate several functions, among them:

- saving then loading gives the saved project back
  (`roundtrip::lemma_save_then_load`). The law is stated over the document
  in the form it is written and read in; that the TOML text is read back as
  the document that was written is the TOML crate's part and is not proved
  here.
- every kind of edit (flood fill, text, stamp paste, line or rectangle,
  deleting or moving a selection, and a pencil or eraser stroke once
  finished) goes into the history as one recorded edit of its frame
  (`editor::undoing`), and an undo takes a recorded edit back, also after
  moving to another frame in between: the document is as it was, the edited
  frame is current and the edit waits in the redo history
  (`editor::undoing::lemma_undo_takes_back_recorded_edit`). A redo right
  after the undo restores the edit (`editor::edits`, `editor::history`).
  Undo after other edits in between is covered only by the contracts of
  `undo` and `redo`, which revert and reapply the most recent stroke.
- a flood fill paints exactly the region connected to its start
  (`editor::edits::filled`).
- picking a style variant never changes a painted cell
  (`editor::styles::lemma_variant_pick_keeps_cells`).
- toggling an attribute twice comes back to the style one started from
  (`editor::styles::lemma_toggle_twice_returns`).
- a document that validation accepts loads as a project within every
  limit of the format: canvas size, frame and style counts, non-blank
  distinct style and frame IDs, positive durations, and every painted cell
  on the canvas with a known style and a V1 character
  (`validate::lemma_loaded_project_sound`); it can be edited once it has a
  style (`editor::actions::lemma_loaded_document_editable`).
- creating or renaming a style through its dialog keeps style IDs non-blank
  and distinct (`editor::commit::lemma_style_dialogs_keep_ids_sound`).
