use vstd::prelude::*;

use crate::editor::actions::{picker_max_scroll, Request};
use crate::editor::commit::committed;
use crate::editor::frames::{frame_inserted, position_text, stroke_finished};
use crate::editor::selection::selection_nudged;
use crate::editor::tools::{selection_copied, selection_cut, selection_deleted};
use crate::editor::controls::{ColorTarget, Screen, Tool};
use crate::editor::dimensions::{parse_dimensions, spec_parse_dimensions};
use crate::editor::edits::{redone, undone};
use crate::editor::naming::{first_free, next_style_id, numbered, style_id_set};
use crate::editor::state::{AppState, Modal, DEFAULT_NEW_HEIGHT, DEFAULT_NEW_WIDTH};
use crate::editor::styles::copy_attrs;
use crate::export::{exported_frame, export_plain_text, plain_text_rows};
use crate::model::{spec_to_hex, AssetKind, Color, Project, TerminalStyle};
use crate::text::{
    chars_equal, chars_of, decimal_string, owned, push_char, push_str, str_debug_string, string_from_chars,
    trim_chars, trim_seq,
};
use crate::unicode::{is_valid_v1_character, spec_is_valid_v1_character};

verus! {

/// A key as the editor tells keys apart.
#[derive(Debug, Clone, Copy, PartialEq, Eq, Structural)]
pub enum KeyCode {
    Char(char),
    Enter,
    Esc,
    Backspace,
    Delete,
    Tab,
    Left,
    Right,
    Up,
    Down,
    PageUp,
    PageDown,
    Other,
}

/// A key press or release, with whether Control was held.
#[derive(Debug, Clone, Copy)]
pub struct KeyEvent {
    pub code: KeyCode,
    pub ctrl: bool,
    pub release: bool,
}

/// What the mouse did.
#[derive(Debug, Clone, Copy, PartialEq, Eq, Structural)]
pub enum MouseKind {
    Moved,
    LeftDown,
    LeftDrag,
    LeftUp,
    ScrollUp,
    ScrollDown,
    Other,
}

/// A mouse event at a screen cell.
#[derive(Debug, Clone, Copy)]
pub struct MouseEvent {
    pub kind: MouseKind,
    pub column: u16,
    pub row: u16,
}

/// What a key does in the editor when no dialog is open.
#[derive(Debug, Clone, Copy, PartialEq, Eq, Structural)]
pub enum EditorCommand {
    Save,
    SaveAs,
    Undo,
    Redo,
    CopySelection,
    CutSelection,
    StampTool,
    NudgeRight,
    NudgeLeft,
    NudgeUp,
    NudgeDown,
    NextFrame,
    PreviousFrame,
    DeleteSelection,
    ClearSelection,
    DuplicateFrame,
    BlankFrame,
    ToggleOnion,
    SelectTool(Tool),
    BrushDialog,
    NewStyleDialog,
    RenameStyleDialog,
    ForegroundDialog,
    BackgroundDialog,
    ColorPicker,
    RgbDialog,
    PreviousStyle,
    NextStyle,
    Quit,
    Nothing,
}

/// The command a key gives in the editor, given whether arrows would
/// move the selection and whether something is selected.
pub open spec fn editor_command(key: KeyEvent, can_nudge: bool, has_selection: bool) -> EditorCommand {
    let c = key.code;
    if key.ctrl && c == KeyCode::Char('s') {
        EditorCommand::Save
    } else if key.ctrl && c == KeyCode::Char('S') {
        EditorCommand::SaveAs
    } else if key.ctrl && c == KeyCode::Char('z') {
        EditorCommand::Undo
    } else if key.ctrl && c == KeyCode::Char('y') {
        EditorCommand::Redo
    } else if key.ctrl && c == KeyCode::Char('c') {
        EditorCommand::CopySelection
    } else if key.ctrl && c == KeyCode::Char('x') {
        EditorCommand::CutSelection
    } else if key.ctrl && c == KeyCode::Char('v') {
        EditorCommand::StampTool
    } else if c == KeyCode::Right && can_nudge {
        EditorCommand::NudgeRight
    } else if c == KeyCode::Left && can_nudge {
        EditorCommand::NudgeLeft
    } else if c == KeyCode::Up && can_nudge {
        EditorCommand::NudgeUp
    } else if c == KeyCode::Down && can_nudge {
        EditorCommand::NudgeDown
    } else if c == KeyCode::Char('n') || c == KeyCode::Char('N') || c == KeyCode::Right {
        EditorCommand::NextFrame
    } else if c == KeyCode::Left {
        EditorCommand::PreviousFrame
    } else if (c == KeyCode::Delete || c == KeyCode::Backspace) && has_selection {
        EditorCommand::DeleteSelection
    } else if c == KeyCode::Esc && has_selection {
        EditorCommand::ClearSelection
    } else if c == KeyCode::Char('d') || c == KeyCode::Char('D') {
        EditorCommand::DuplicateFrame
    } else if c == KeyCode::Char('b') || c == KeyCode::Char('B') {
        EditorCommand::BlankFrame
    } else if c == KeyCode::Char('o') || c == KeyCode::Char('O') {
        EditorCommand::ToggleOnion
    } else if c == KeyCode::Char('p') || c == KeyCode::Char('P') {
        EditorCommand::SelectTool(Tool::Pencil)
    } else if c == KeyCode::Char('e') || c == KeyCode::Char('E') {
        EditorCommand::SelectTool(Tool::Eraser)
    } else if c == KeyCode::Char('i') || c == KeyCode::Char('I') {
        EditorCommand::SelectTool(Tool::Eyedropper)
    } else if c == KeyCode::Char('v') || c == KeyCode::Char('V') {
        EditorCommand::SelectTool(Tool::Selection)
    } else if c == KeyCode::Char('t') || c == KeyCode::Char('T') {
        EditorCommand::SelectTool(Tool::Text)
    } else if c == KeyCode::Char('l') || c == KeyCode::Char('L') {
        EditorCommand::SelectTool(Tool::Line)
    } else if c == KeyCode::Char('h') || c == KeyCode::Char('H') {
        EditorCommand::SelectTool(Tool::Rectangle)
    } else if c == KeyCode::Char('c') || c == KeyCode::Char('C') {
        EditorCommand::BrushDialog
    } else if c == KeyCode::Char('a') || c == KeyCode::Char('A') {
        EditorCommand::NewStyleDialog
    } else if c == KeyCode::Char('r') || c == KeyCode::Char('R') {
        EditorCommand::RenameStyleDialog
    } else if c == KeyCode::Char('f') || c == KeyCode::Char('F') {
        EditorCommand::ForegroundDialog
    } else if c == KeyCode::Char('g') || c == KeyCode::Char('G') {
        EditorCommand::BackgroundDialog
    } else if c == KeyCode::Char('m') || c == KeyCode::Char('M') {
        EditorCommand::ColorPicker
    } else if c == KeyCode::Char('u') || c == KeyCode::Char('U') {
        EditorCommand::RgbDialog
    } else if c == KeyCode::Char('[') {
        EditorCommand::PreviousStyle
    } else if c == KeyCode::Char(']') || c == KeyCode::Tab {
        EditorCommand::NextStyle
    } else if c == KeyCode::Char('q') || c == KeyCode::Char('Q') || c == KeyCode::Esc {
        EditorCommand::Quit
    } else {
        EditorCommand::Nothing
    }
}

/// The command a key gives in the editor.
pub fn editor_command_of(key: KeyEvent, can_nudge: bool, has_selection: bool) -> (r: EditorCommand)
    ensures
        r == editor_command(key, can_nudge, has_selection),
{
    let c = key.code;
    if key.ctrl && c == KeyCode::Char('s') {
        EditorCommand::Save
    } else if key.ctrl && c == KeyCode::Char('S') {
        EditorCommand::SaveAs
    } else if key.ctrl && c == KeyCode::Char('z') {
        EditorCommand::Undo
    } else if key.ctrl && c == KeyCode::Char('y') {
        EditorCommand::Redo
    } else if key.ctrl && c == KeyCode::Char('c') {
        EditorCommand::CopySelection
    } else if key.ctrl && c == KeyCode::Char('x') {
        EditorCommand::CutSelection
    } else if key.ctrl && c == KeyCode::Char('v') {
        EditorCommand::StampTool
    } else if c == KeyCode::Right && can_nudge {
        EditorCommand::NudgeRight
    } else if c == KeyCode::Left && can_nudge {
        EditorCommand::NudgeLeft
    } else if c == KeyCode::Up && can_nudge {
        EditorCommand::NudgeUp
    } else if c == KeyCode::Down && can_nudge {
        EditorCommand::NudgeDown
    } else if c == KeyCode::Char('n') || c == KeyCode::Char('N') || c == KeyCode::Right {
        EditorCommand::NextFrame
    } else if c == KeyCode::Left {
        EditorCommand::PreviousFrame
    } else if (c == KeyCode::Delete || c == KeyCode::Backspace) && has_selection {
        EditorCommand::DeleteSelection
    } else if c == KeyCode::Esc && has_selection {
        EditorCommand::ClearSelection
    } else if c == KeyCode::Char('d') || c == KeyCode::Char('D') {
        EditorCommand::DuplicateFrame
    } else if c == KeyCode::Char('b') || c == KeyCode::Char('B') {
        EditorCommand::BlankFrame
    } else if c == KeyCode::Char('o') || c == KeyCode::Char('O') {
        EditorCommand::ToggleOnion
    } else if c == KeyCode::Char('p') || c == KeyCode::Char('P') {
        EditorCommand::SelectTool(Tool::Pencil)
    } else if c == KeyCode::Char('e') || c == KeyCode::Char('E') {
        EditorCommand::SelectTool(Tool::Eraser)
    } else if c == KeyCode::Char('i') || c == KeyCode::Char('I') {
        EditorCommand::SelectTool(Tool::Eyedropper)
    } else if c == KeyCode::Char('v') || c == KeyCode::Char('V') {
        EditorCommand::SelectTool(Tool::Selection)
    } else if c == KeyCode::Char('t') || c == KeyCode::Char('T') {
        EditorCommand::SelectTool(Tool::Text)
    } else if c == KeyCode::Char('l') || c == KeyCode::Char('L') {
        EditorCommand::SelectTool(Tool::Line)
    } else if c == KeyCode::Char('h') || c == KeyCode::Char('H') {
        EditorCommand::SelectTool(Tool::Rectangle)
    } else if c == KeyCode::Char('c') || c == KeyCode::Char('C') {
        EditorCommand::BrushDialog
    } else if c == KeyCode::Char('a') || c == KeyCode::Char('A') {
        EditorCommand::NewStyleDialog
    } else if c == KeyCode::Char('r') || c == KeyCode::Char('R') {
        EditorCommand::RenameStyleDialog
    } else if c == KeyCode::Char('f') || c == KeyCode::Char('F') {
        EditorCommand::ForegroundDialog
    } else if c == KeyCode::Char('g') || c == KeyCode::Char('G') {
        EditorCommand::BackgroundDialog
    } else if c == KeyCode::Char('m') || c == KeyCode::Char('M') {
        EditorCommand::ColorPicker
    } else if c == KeyCode::Char('u') || c == KeyCode::Char('U') {
        EditorCommand::RgbDialog
    } else if c == KeyCode::Char('[') {
        EditorCommand::PreviousStyle
    } else if c == KeyCode::Char(']') || c == KeyCode::Tab {
        EditorCommand::NextStyle
    } else if c == KeyCode::Char('q') || c == KeyCode::Char('Q') || c == KeyCode::Esc {
        EditorCommand::Quit
    } else {
        EditorCommand::Nothing
    }
}

/// What has been typed into a text dialog; `None` for the others.
pub open spec fn modal_input(m: Modal) -> Option<Seq<char>> {
    match m {
        Modal::NewImage { input, .. } => Some(input@),
        Modal::NewAnimation { input, .. } => Some(input@),
        Modal::OpenFile { input } => Some(input@),
        Modal::SaveAs { input } => Some(input@),
        Modal::BrushChar { input } => Some(input@),
        Modal::TextInput { input, .. } => Some(input@),
        Modal::NewStyle { input } => Some(input@),
        Modal::RenameStyle { input } => Some(input@),
        Modal::SetFg { input } => Some(input@),
        Modal::SetBg { input } => Some(input@),
        Modal::ExportText { input } => Some(input@),
        Modal::ExportAnsi { input } => Some(input@),
        _ => None,
    }
}

/// `s` with `ch` appended, or its last character dropped for `None`.
pub open spec fn edited(s: Seq<char>, ch: Option<char>) -> Seq<char> {
    match ch {
        Some(c) => s.push(c),
        None => if s.len() > 0 { s.drop_last() } else { s },
    }
}

/// `s` with `ch` appended, or its last character dropped for `None`.
fn edit_text(s: String, ch: Option<char>) -> (r: String)
    ensures
        r@ == edited(s@, ch),
{
    match ch {
        Some(c) => {
            let mut t = s;
            push_char(&mut t, c);
            t
        },
        None => {
            let chars = chars_of(s.as_str());
            if chars.len() == 0 {
                return s;
            }
            let mut kept: Vec<char> = Vec::new();
            let mut i: usize = 0;
            while i + 1 < chars.len()
                invariant
                    i + 1 <= chars@.len(),
                    kept@ == chars@.take(i as int),
                decreases chars.len() - i,
            {
                kept.push(chars[i]);
                proof {
                    assert(chars@.take(i + 1) == chars@.take(i as int).push(chars@[i as int]));
                }
                i += 1;
            }
            proof {
                assert(kept@ == chars@.drop_last());
            }
            string_from_chars(&kept)
        },
    }
}

/// The dialog with its typed text edited: a character appended, or the
/// last one dropped.
pub fn modal_with_edit(modal: Modal, ch: Option<char>) -> (r: Modal)
    ensures
        modal_input(r) == match modal_input(modal) {
            Some(s) => Some(edited(s, ch)),
            None => None,
        },
        modal_input(modal) is None ==> r == modal,
        same_dialog(modal, r),
{
    match modal {
        Modal::NewImage { input, target_path } => Modal::NewImage { input: edit_text(input, ch), target_path },
        Modal::NewAnimation { input, target_path } => Modal::NewAnimation { input: edit_text(input, ch), target_path },
        Modal::OpenFile { input } => Modal::OpenFile { input: edit_text(input, ch) },
        Modal::SaveAs { input } => Modal::SaveAs { input: edit_text(input, ch) },
        Modal::BrushChar { input } => Modal::BrushChar { input: edit_text(input, ch) },
        Modal::TextInput { input, start } => Modal::TextInput { input: edit_text(input, ch), start },
        Modal::NewStyle { input } => Modal::NewStyle { input: edit_text(input, ch) },
        Modal::RenameStyle { input } => Modal::RenameStyle { input: edit_text(input, ch) },
        Modal::SetFg { input } => Modal::SetFg { input: edit_text(input, ch) },
        Modal::SetBg { input } => Modal::SetBg { input: edit_text(input, ch) },
        Modal::ExportText { input } => Modal::ExportText { input: edit_text(input, ch) },
        Modal::ExportAnsi { input } => Modal::ExportAnsi { input: edit_text(input, ch) },
        other => other,
    }
}

/// `"48x16"`: the size new canvases are offered with.
fn default_size_text() -> (r: String)
    ensures
        r@ == "48x16"@,
{
    owned("48x16")
}

/// `a` and `b` are the same dialog, whatever has been typed into them.
pub open spec fn same_dialog(a: Modal, b: Modal) -> bool {
    match (a, b) {
        (Modal::NewImage { target_path: x, .. }, Modal::NewImage { target_path: y, .. }) => x == y,
        (Modal::NewAnimation { target_path: x, .. }, Modal::NewAnimation { target_path: y, .. }) => x == y,
        (Modal::OpenFile { .. }, Modal::OpenFile { .. }) => true,
        (Modal::SaveAs { .. }, Modal::SaveAs { .. }) => true,
        (Modal::BrushChar { .. }, Modal::BrushChar { .. }) => true,
        (Modal::TextInput { start: x, .. }, Modal::TextInput { start: y, .. }) => x == y,
        (Modal::NewStyle { .. }, Modal::NewStyle { .. }) => true,
        (Modal::RenameStyle { .. }, Modal::RenameStyle { .. }) => true,
        (Modal::SetFg { .. }, Modal::SetFg { .. }) => true,
        (Modal::SetBg { .. }, Modal::SetBg { .. }) => true,
        (Modal::ExportText { .. }, Modal::ExportText { .. }) => true,
        (Modal::ExportAnsi { .. }, Modal::ExportAnsi { .. }) => true,
        _ => a == b,
    }
}

/// `s` showing the dialog `m`.
pub open spec fn with_modal(s: AppState, m: Option<Modal>) -> AppState {
    AppState { modal: m, ..s }
}

/// The tool a key picks in the tool menu: its number or its letter.
pub open spec fn tool_menu_choice(code: KeyCode) -> Option<Tool> {
    match code {
        KeyCode::Char('1') | KeyCode::Char('p') | KeyCode::Char('P') => Some(Tool::Pencil),
        KeyCode::Char('2') | KeyCode::Char('e') | KeyCode::Char('E') => Some(Tool::Eraser),
        KeyCode::Char('3') | KeyCode::Char('i') | KeyCode::Char('I') => Some(Tool::Eyedropper),
        KeyCode::Char('4') | KeyCode::Char('f') | KeyCode::Char('F') => Some(Tool::Fill),
        KeyCode::Char('5') | KeyCode::Char('v') | KeyCode::Char('V') => Some(Tool::Selection),
        KeyCode::Char('6') | KeyCode::Char('s') | KeyCode::Char('S') => Some(Tool::Stamp),
        KeyCode::Char('7') | KeyCode::Char('t') | KeyCode::Char('T') => Some(Tool::Text),
        KeyCode::Char('8') | KeyCode::Char('l') | KeyCode::Char('L') => Some(Tool::Line),
        KeyCode::Char('9') | KeyCode::Char('h') | KeyCode::Char('H') => Some(Tool::Rectangle),
        _ => None,
    }
}

/// The tool a key picks in the tool menu.
fn tool_menu_choice_of(code: KeyCode) -> (r: Option<Tool>)
    ensures
        r == tool_menu_choice(code),
{
    match code {
        KeyCode::Char('1') | KeyCode::Char('p') | KeyCode::Char('P') => Some(Tool::Pencil),
        KeyCode::Char('2') | KeyCode::Char('e') | KeyCode::Char('E') => Some(Tool::Eraser),
        KeyCode::Char('3') | KeyCode::Char('i') | KeyCode::Char('I') => Some(Tool::Eyedropper),
        KeyCode::Char('4') | KeyCode::Char('f') | KeyCode::Char('F') => Some(Tool::Fill),
        KeyCode::Char('5') | KeyCode::Char('v') | KeyCode::Char('V') => Some(Tool::Selection),
        KeyCode::Char('6') | KeyCode::Char('s') | KeyCode::Char('S') => Some(Tool::Stamp),
        KeyCode::Char('7') | KeyCode::Char('t') | KeyCode::Char('T') => Some(Tool::Text),
        KeyCode::Char('8') | KeyCode::Char('l') | KeyCode::Char('L') => Some(Tool::Line),
        KeyCode::Char('9') | KeyCode::Char('h') | KeyCode::Char('H') => Some(Tool::Rectangle),
        _ => None,
    }
}

/// The tool the state uses after `tool` is chosen: the stamp only when a
/// stamp exists.
pub open spec fn chosen_tool(o: AppState, tool: Tool) -> Tool {
    if tool == Tool::Stamp && !(o.current_stamp_index matches Some(i) && i < o.stamps@.len()) {
        o.tool
    } else {
        tool
    }
}

/// What "save and quit" does: a save that quits once it succeeds, or,
/// with no path yet, the Save As dialog (quitting at once when nothing
/// is unsaved).
pub open spec fn save_and_quit_done(o: AppState, f: AppState, r: Request) -> bool {
    match o.file_path {
        Some(p) => (r matches Request::Save { path, quit_after } && path@ == p@ && quit_after) && f == o,
        None => {
            &&& r is Nothing
            &&& f.modal matches Some(Modal::SaveAs { input }) && input@ == "untitled.tanim.toml"@
            &&& f.should_quit == (o.should_quit || !o.dirty)
            &&& f.dirty == o.dirty
            &&& f.project == o.project
        },
    }
}

/// What a key does while a dialog is open: the state `f` it leaves and
/// the outside work `r` it asks for.
pub open spec fn modal_key_handled(o: AppState, key: KeyEvent, f: AppState, r: Request) -> bool {
    match o.modal {
        Some(Modal::ColorPicker) => r is Nothing && match key.code {
            KeyCode::Esc => f.modal is None && f.message@ == "Color picker closed"@ && f.project == o.project,
            KeyCode::PageDown | KeyCode::Down => f.eq_except_picker_row(o) && f.color_picker_scroll_row == if o.color_picker_scroll_row
                + 1 < picker_max_scroll(o.areas.modal_area) {
                o.color_picker_scroll_row + 1
            } else {
                picker_max_scroll(o.areas.modal_area)
            },
            KeyCode::PageUp | KeyCode::Up => f.eq_except_picker_row(o) && f.color_picker_scroll_row == if o.color_picker_scroll_row
                >= 1 {
                o.color_picker_scroll_row - 1
            } else {
                0
            },
            KeyCode::Char('u') | KeyCode::Char('U') => f.project == o.project && (f.modal matches Some(
                Modal::RgbInput { color },
            ) && color == o.spec_rgb_base()),
            _ => f == o,
        },
        Some(Modal::RgbInput { color }) => match key.code {
            KeyCode::Esc => r is Nothing && f.modal is None && f.message@ == "RGB canceled"@ && f.project == o.project,
            KeyCode::Enter => committed(with_modal(o, None), Modal::RgbInput { color }, f, r),
            _ => r is Nothing && f == o,
        },
        Some(Modal::ToolMenu) => r is Nothing && match key.code {
            KeyCode::Esc => f.modal is None && f.message@ == "Tool menu closed"@ && f.project == o.project,
            _ => match tool_menu_choice(key.code) {
                Some(t) => f.modal is None && f.tool == chosen_tool(o, t) && f.project == o.project,
                None => f == o,
            },
        },
        Some(Modal::ExportMenu) => r is Nothing && match key.code {
            KeyCode::Esc => f.modal is None && f.message@ == "Export canceled"@ && f.project == o.project,
            KeyCode::Char('t') | KeyCode::Char('T') => (f.modal matches Some(Modal::ExportText { .. })) && f.project
                == o.project,
            KeyCode::Char('a') | KeyCode::Char('A') => (f.modal matches Some(Modal::ExportAnsi { .. })) && f.project
                == o.project,
            _ => f == o,
        },
        Some(Modal::QuitConfirm) => match key.code {
            KeyCode::Char('s') | KeyCode::Char('S') => save_and_quit_done(o, f, r),
            KeyCode::Char('d') | KeyCode::Char('D') => r is Nothing && f.should_quit && f.project == o.project,
            KeyCode::Char('c') | KeyCode::Char('C') | KeyCode::Esc => r is Nothing && f.modal is None && f.message@
                == "Quit canceled"@ && f.should_quit == o.should_quit && f.project == o.project,
            _ => r is Nothing && f == o,
        },
        Some(m) => match key.code {
            KeyCode::Esc => r is Nothing && f.modal is None && f.message@ == "Canceled"@ && f.project == o.project,
            KeyCode::Enter => committed(with_modal(o, None), m, f, r),
            KeyCode::Backspace => r is Nothing && f == with_modal(o, f.modal) && (f.modal matches Some(n) && same_dialog(
                m,
                n,
            ) && modal_input(n) == match modal_input(m) {
                Some(t) => Some(edited(t, None)),
                None => None,
            }),
            KeyCode::Char(ch) => r is Nothing && if key.ctrl {
                f == o
            } else {
                f == with_modal(o, f.modal) && (f.modal matches Some(n) && same_dialog(m, n) && modal_input(n)
                    == match modal_input(m) {
                    Some(t) => Some(edited(t, Some(ch))),
                    None => None,
                })
            },
            _ => r is Nothing && f == o,
        },
        None => r is Nothing && f == o,
    }
}

/// What a key does, wherever the editor is: releases do nothing, an open
/// dialog takes the key first, then the welcome screen or the editor.
pub open spec fn key_handled(o: AppState, key: KeyEvent, f: AppState, r: Request) -> bool {
    if key.release {
        r is Nothing && f == o
    } else if o.modal is Some {
        modal_key_handled(o, key, f, r)
    } else {
        match o.screen {
            Screen::Welcome => r is Nothing && welcome_key_handled(o, key, f),
            Screen::Editor => editor_key_handled(o, key, f, r),
        }
    }
}

/// What a key does on the welcome screen.
pub open spec fn welcome_key_handled(o: AppState, key: KeyEvent, f: AppState) -> bool {
    match key.code {
        KeyCode::Char('n') | KeyCode::Char('N') => (f.modal matches Some(Modal::NewImage { input, target_path })
            && input@ == "48x16"@ && target_path is None),
        KeyCode::Char('a') | KeyCode::Char('A') => (f.modal matches Some(Modal::NewAnimation { input, target_path })
            && input@ == "48x16"@ && target_path is None),
        KeyCode::Char('o') | KeyCode::Char('O') => (f.modal matches Some(Modal::OpenFile { input })
            && input@.len() == 0),
        KeyCode::Char('q') | KeyCode::Char('Q') | KeyCode::Esc => f.should_quit,
        _ => f == o,
    }
}

/// What a key does in the editor with no dialog open: the state `f` it
/// leaves and the outside work `r` it asks for.
pub open spec fn editor_key_handled(o: AppState, key: KeyEvent, f: AppState, r: Request) -> bool {
    let command = editor_command(key, o.tool == Tool::Selection && o.selection is Some, o.selection is Some);
    &&& f.should_quit == (o.should_quit || (command is Quit && !o.dirty))
    &&& editor_key_effect(o, key, f, r)
}

/// What each editor command does, besides whether the editor quits.
pub open spec fn editor_key_effect(o: AppState, key: KeyEvent, f: AppState, r: Request) -> bool {
    match editor_command(key, o.tool == Tool::Selection && o.selection is Some, o.selection is Some) {
        EditorCommand::Undo => undone(o, f) && r is Nothing,
        EditorCommand::Redo => redone(o, f) && r is Nothing,
        EditorCommand::Save => match o.file_path {
            Some(p) => (r matches Request::Save { path, quit_after } && path@ == p@ && !quit_after),
            None => r is Nothing && (f.modal matches Some(Modal::SaveAs { .. })),
        },
        EditorCommand::SaveAs => r is Nothing && (f.modal matches Some(Modal::SaveAs { .. })),
        EditorCommand::SelectTool(t) => r is Nothing && f.project == o.project && (f.tool
            == t || (t == Tool::Stamp && f.tool == o.tool)),
        EditorCommand::ToggleOnion => r is Nothing && f.onion_skin == !o.onion_skin
            && f.project == o.project,
        EditorCommand::BrushDialog => r is Nothing && (f.modal matches Some(Modal::BrushChar { input })
            && input@ == seq![o.brush_char]),
        EditorCommand::Quit => r is Nothing && (o.dirty ==> f.modal matches Some(Modal::QuitConfirm))
            && (!o.dirty ==> f.should_quit),
        EditorCommand::Nothing => r is Nothing && f == o,
        EditorCommand::ClearSelection => r is Nothing && f.selection is None && f.project == o.project,
        EditorCommand::PreviousFrame => {
            &&& r is Nothing
            &&& f.project == o.project
            &&& f.current_frame_index == if o.current_frame_index > 0 {
                o.current_frame_index - 1
            } else {
                0
            }
            &&& f.message@ == if o.current_frame_index > 0 {
                position_text("Frame"@, (o.current_frame_index - 1) as nat, o.project.frames@.len())
            } else {
                "Already on first frame"@
            }
        },
        EditorCommand::NextFrame => {
            &&& r is Nothing
            &&& o.current_frame_index + 1 < o.project.frames@.len() ==> {
                &&& f.project == o.project
                &&& f.current_frame_index == o.current_frame_index + 1
                &&& f.selection is None
                &&& f.message@ == position_text("Frame"@, (o.current_frame_index + 1) as nat, o.project.frames@.len())
            }
            &&& o.current_frame_index + 1 >= o.project.frames@.len() ==> exists|mid: AppState| #[trigger] stroke_finished(
                o,
                mid,
            ) && frame_inserted(mid, f, o.cells(), "Added frame"@)
        },
        EditorCommand::PreviousStyle => r is Nothing && f.project == o.project && f.current_style == if o.current_style
            == 0 {
            (o.project.styles@.len() - 1) as usize
        } else {
            (o.current_style - 1) as usize
        },
        EditorCommand::NextStyle => r is Nothing && f.project == o.project && f.current_style == if o.current_style + 1
            < o.project.styles@.len() {
            o.current_style + 1
        } else {
            0
        },
        EditorCommand::NewStyleDialog => r is Nothing && f.project == o.project && (o.project.styles@.len() < usize::MAX
            - 2 ==> (f.modal matches Some(Modal::NewStyle { input }) && exists|i: nat| #[trigger] first_free(
            style_id_set(o.project),
            "style-"@,
            1,
            i,
        ) && input@ == numbered("style-"@, i))),
        EditorCommand::RenameStyleDialog => r is Nothing && f.project == o.project && (f.modal matches Some(
            Modal::RenameStyle { input },
        ) && input@ == o.project.styles@[o.current_style as int].id@),
        EditorCommand::ForegroundDialog => r is Nothing && f.project == o.project && (f.modal matches Some(
            Modal::SetFg { input },
        ) && input@ == spec_to_hex(o.project.styles@[o.current_style as int].fg)),
        EditorCommand::BackgroundDialog => r is Nothing && f.project == o.project && (f.modal matches Some(
            Modal::SetBg { input },
        ) && input@ == match o.project.styles@[o.current_style as int].bg {
            Some(c) => spec_to_hex(c),
            None => "transparent"@,
        }),
        EditorCommand::ColorPicker => r is Nothing && f.project == o.project && (f.modal matches Some(Modal::ColorPicker)),
        EditorCommand::RgbDialog => r is Nothing && f.project == o.project && (f.modal matches Some(Modal::RgbInput { color })
            && color == o.spec_rgb_base()),
        EditorCommand::StampTool => r is Nothing && f.project == o.project && match o.current_stamp_index {
            Some(i) if i < o.stamps@.len() => f.tool == Tool::Stamp,
            _ => f.tool == o.tool,
        },
        EditorCommand::CopySelection => r is Nothing && selection_copied(o, f),
        EditorCommand::CutSelection => r is Nothing && selection_cut(o, f),
        EditorCommand::DeleteSelection => r is Nothing && selection_deleted(o, f),
        EditorCommand::NudgeRight => r is Nothing && selection_nudged(o, f, 1i16, 0i16),
        EditorCommand::NudgeLeft => r is Nothing && selection_nudged(o, f, -1i16, 0i16),
        EditorCommand::NudgeUp => r is Nothing && selection_nudged(o, f, 0i16, -1i16),
        EditorCommand::NudgeDown => r is Nothing && selection_nudged(o, f, 0i16, 1i16),
        EditorCommand::DuplicateFrame => r is Nothing && exists|mid: AppState| #[trigger] stroke_finished(o, mid)
            && frame_inserted(mid, f, o.cells(), "Duplicated frame"@),
        EditorCommand::BlankFrame => r is Nothing && exists|mid: AppState| #[trigger] stroke_finished(o, mid)
            && frame_inserted(mid, f, Map::empty(), "Added blank frame"@),
    }
}

impl AppState {
    /// Handles a key on the welcome screen: new image, new animation, open,
    /// or quit.
    pub fn handle_welcome_key(&mut self, key: KeyEvent)
        requires
            old(self).wf(),
        ensures
            final(self).wf(),
            final(self).project == old(self).project,
            welcome_key_handled(*old(self), key, *final(self)),
    {
        match key.code {
            KeyCode::Char('n') | KeyCode::Char('N') => {
                self.modal = Some(Modal::NewImage { input: default_size_text(), target_path: None });
            },
            KeyCode::Char('a') | KeyCode::Char('A') => {
                self.modal = Some(Modal::NewAnimation { input: default_size_text(), target_path: None });
            },
            KeyCode::Char('o') | KeyCode::Char('O') => {
                self.modal = Some(Modal::OpenFile { input: String::new() });
            },
            KeyCode::Char('q') | KeyCode::Char('Q') | KeyCode::Esc => {
                self.should_quit = true;
            },
            _ => {},
        }
    }

    /// Handles a key in the editor with no dialog open.
    pub fn handle_editor_key(&mut self, key: KeyEvent) -> (r: Request)
        requires
            old(self).wf(),
        ensures
            final(self).wf(),
            editor_key_handled(*old(self), key, *final(self), r),
    {
        let can_nudge = self.can_nudge_selection();
        let has_selection = self.selection.is_some();
        match editor_command_of(key, can_nudge, has_selection) {
            EditorCommand::Save => {
                return self.save(false);
            },
            EditorCommand::SaveAs => {
                self.open_save_as();
            },
            EditorCommand::Undo => {
                self.undo();
            },
            EditorCommand::Redo => {
                self.redo();
            },
            EditorCommand::CopySelection => {
                self.copy_selection_to_stamp();
            },
            EditorCommand::CutSelection => {
                self.cut_selection_to_stamp();
            },
            EditorCommand::StampTool => {
                self.select_stamp_tool();
            },
            EditorCommand::NudgeRight => {
                self.nudge_selection(1, 0);
            },
            EditorCommand::NudgeLeft => {
                self.nudge_selection(-1, 0);
            },
            EditorCommand::NudgeUp => {
                self.nudge_selection(0, -1);
            },
            EditorCommand::NudgeDown => {
                self.nudge_selection(0, 1);
            },
            EditorCommand::NextFrame => {
                self.next_frame_or_create();
            },
            EditorCommand::PreviousFrame => {
                self.previous_frame_or_message();
            },
            EditorCommand::DeleteSelection => {
                self.delete_selection();
            },
            EditorCommand::ClearSelection => {
                self.clear_selection();
            },
            EditorCommand::DuplicateFrame => {
                self.duplicate_current_frame();
            },
            EditorCommand::BlankFrame => {
                self.insert_blank_frame();
            },
            EditorCommand::ToggleOnion => {
                self.toggle_onion_skin();
            },
            EditorCommand::SelectTool(tool) => {
                self.select_tool(tool);
            },
            EditorCommand::BrushDialog => {
                let mut input = String::new();
                push_char(&mut input, self.brush_char);
                self.modal = Some(Modal::BrushChar { input });
            },
            EditorCommand::NewStyleDialog => {
                if self.project.styles.len() < usize::MAX - 2 {
                    let input = next_style_id(&self.project);
                    self.modal = Some(Modal::NewStyle { input });
                }
            },
            EditorCommand::RenameStyleDialog => {
                let input = owned(self.project.styles[self.current_style].id.as_str());
                self.modal = Some(Modal::RenameStyle { input });
            },
            EditorCommand::ForegroundDialog => {
                let input = self.project.styles[self.current_style].fg.to_hex();
                self.modal = Some(Modal::SetFg { input });
            },
            EditorCommand::BackgroundDialog => {
                let input = match self.project.styles[self.current_style].bg {
                    Some(c) => c.to_hex(),
                    None => owned("transparent"),
                };
                self.modal = Some(Modal::SetBg { input });
            },
            EditorCommand::ColorPicker => {
                self.open_color_picker();
            },
            EditorCommand::RgbDialog => {
                self.open_rgb_input();
            },
            EditorCommand::PreviousStyle => {
                self.previous_style();
            },
            EditorCommand::NextStyle => {
                self.next_style();
            },
            EditorCommand::Quit => {
                self.request_quit();
            },
            EditorCommand::Nothing => {},
        }
        Request::Nothing
    }
    /// Handles a key: releases are ignored; an open dialog takes the key
    /// first, then the welcome screen or the editor.
    pub fn handle_key(&mut self, key: KeyEvent) -> (r: Request)
        requires
            old(self).wf(),
        ensures
            final(self).wf(),
            key_handled(*old(self), key, *final(self), r),
    {
        if key.release {
            return Request::Nothing;
        }
        if self.modal.is_some() {
            return self.handle_modal_key(key);
        }
        match self.screen {
            Screen::Welcome => {
                self.handle_welcome_key(key);
                Request::Nothing
            },
            Screen::Editor => self.handle_editor_key(key),
        }
    }

    /// Saves and then quits, or asks for a path first.
    pub fn save_and_quit(&mut self) -> (r: Request)
        requires
            old(self).wf(),
        ensures
            final(self).wf(),
            save_and_quit_done(*old(self), *final(self), r),
    {
        let no_path = self.file_path.is_none();
        let r = self.save(true);
        if no_path && !self.dirty {
            self.should_quit = true;
        }
        r
    }

    /// Takes the open dialog and acts on it.
    fn commit_open_modal(&mut self) -> (r: Request)
        requires
            old(self).wf(),
            old(self).modal is Some,
        ensures
            final(self).wf(),
            committed(with_modal(*old(self), None), old(self).modal->0, *final(self), r),
    {
        let ghost before = *self;
        let modal = self.modal.take();
        match modal {
            Some(m) => {
                proof {
                    assert(*self == with_modal(before, None));
                }
                self.commit_modal(m)
            },
            None => Request::Nothing,
        }
    }

    /// Handles a key while a dialog is open.
    pub fn handle_modal_key(&mut self, key: KeyEvent) -> (r: Request)
        requires
            old(self).wf(),
        ensures
            final(self).wf(),
            modal_key_handled(*old(self), key, *final(self), r),
    {
        let ghost before = *self;
        match &self.modal {
            None => {
                return Request::Nothing;
            },
            Some(Modal::ColorPicker) => {
                match key.code {
                    KeyCode::Esc => self.close_modal(owned("Color picker closed")),
                    KeyCode::PageDown | KeyCode::Down => self.scroll_color_picker(1),
                    KeyCode::PageUp | KeyCode::Up => self.scroll_color_picker(-1),
                    KeyCode::Char('u') | KeyCode::Char('U') => self.open_rgb_input(),
                    _ => {},
                }
                return Request::Nothing;
            },
            Some(Modal::RgbInput { .. }) => {
                match key.code {
                    KeyCode::Esc => {
                        self.close_modal(owned("RGB canceled"));
                    },
                    KeyCode::Enter => {
                        return self.commit_open_modal();
                    },
                    _ => {},
                }
                return Request::Nothing;
            },
            Some(Modal::ToolMenu) => {
                match key.code {
                    KeyCode::Esc => {
                        self.modal = None;
                        self.message = owned("Tool menu closed");
                    },
                    code => match tool_menu_choice_of(code) {
                        Some(tool) => self.select_tool_from_menu(tool),
                        None => {},
                    },
                }
                return Request::Nothing;
            },
            Some(Modal::ExportMenu) => {
                match key.code {
                    KeyCode::Esc => self.close_modal(owned("Export canceled")),
                    KeyCode::Char('t') | KeyCode::Char('T') => self.open_export_text(),
                    KeyCode::Char('a') | KeyCode::Char('A') => self.open_export_ansi(),
                    _ => {},
                }
                return Request::Nothing;
            },
            Some(Modal::QuitConfirm) => {
                match key.code {
                    KeyCode::Char('s') | KeyCode::Char('S') => {
                        return self.save_and_quit();
                    },
                    KeyCode::Char('d') | KeyCode::Char('D') => {
                        self.should_quit = true;
                    },
                    KeyCode::Char('c') | KeyCode::Char('C') | KeyCode::Esc => {
                        self.modal = None;
                        self.message = owned("Quit canceled");
                    },
                    _ => {},
                }
                return Request::Nothing;
            },
            Some(_) => {},
        }
        match key.code {
            KeyCode::Esc => {
                self.modal = None;
                self.message = owned("Canceled");
                Request::Nothing
            },
            KeyCode::Enter => self.commit_open_modal(),
            KeyCode::Backspace => {
                let m = self.modal.take();
                match m {
                    Some(m) => {
                        self.modal = Some(modal_with_edit(m, None));
                    },
                    None => {},
                }
                Request::Nothing
            },
            KeyCode::Char(ch) => {
                if !key.ctrl {
                    let m = self.modal.take();
                    match m {
                        Some(m) => {
                            self.modal = Some(modal_with_edit(m, Some(ch)));
                        },
                        None => {},
                    }
                }
                Request::Nothing
            },
            _ => Request::Nothing,
        }
    }
}

} // verus!
