use vstd::prelude::*;

use crate::ansi::{ansi_rows, export_ansi};
use crate::editor::actions::{asset_name_from_path, Request};
use crate::editor::controls::{ColorTarget, Screen, Tool};
use crate::editor::dimensions::{parse_dimensions, spec_parse_dimensions};
use crate::editor::edits::{applied, apply_message};
use crate::editor::palette::spec_color_id_base;
use crate::editor::selection::{text_fit, text_updates};
use crate::editor::state::{AppState, Modal};
use crate::editor::styles::{copy_attrs, picked_base, picked_bg, picked_fg, picked_label, variant_selected, with_recent};
use crate::export::{export_plain_text, exported_frame, plain_text_rows};
use crate::model::{spec_parse_hex, spec_to_hex, AssetKind, Color, Project, TerminalStyle};
use crate::text::{
    char_debug_string, char_debug_text, chars_of, decimal_string, decimal_text, owned, push_str, str_debug_string,
    str_debug_text, string_equals, string_from_chars, trim_chars, trim_seq, is_blank, lemma_trimmed_not_blank,
};
use crate::unicode::{is_valid_v1_character, spec_is_valid_v1_character};

verus! {

/// The file extension of a document.
pub open spec fn document_suffix() -> Seq<char> {
    ".tanim.toml"@
}

/// The path a Save As name gives: the name itself when it already ends in
/// `.tanim.toml`, else the name with that suffix added.
pub open spec fn with_save_suffix(p: Seq<char>) -> Seq<char> {
    if document_suffix().is_suffix_of(p) {
        p
    } else {
        p + document_suffix()
    }
}

/// Whether `s` ends with `suffix`.
fn ends_with_chars(s: &Vec<char>, suffix: &Vec<char>) -> (r: bool)
    ensures
        r == suffix@.is_suffix_of(s@),
{
    if suffix.len() > s.len() {
        return false;
    }
    let offset = s.len() - suffix.len();
    let mut i: usize = 0;
    while i < suffix.len()
        invariant
            i <= suffix@.len(),
            offset + suffix@.len() == s@.len(),
            s@.len() <= usize::MAX,
            forall|j: int| 0 <= j < i ==> suffix@[j] == s@[offset + j],
        decreases suffix.len() - i,
    {
        if suffix[i] != s[offset + i] {
            proof {
                assert(s@.subrange(offset as int, s@.len() as int)[i as int] == s@[offset + i]);
            }
            return false;
        }
        i += 1;
    }
    proof {
        assert(suffix@ =~= s@.subrange(offset as int, s@.len() as int));
    }
    true
}

/// The path a Save As name gives; see `with_save_suffix`.
pub fn save_path(name: String) -> (r: String)
    ensures
        r@ == with_save_suffix(name@),
{
    let chars = chars_of(name.as_str());
    let suffix = chars_of(".tanim.toml");
    if ends_with_chars(&chars, &suffix) {
        name
    } else {
        let mut out = name;
        push_str(&mut out, ".tanim.toml");
        out
    }
}

/// `str::trim` of `s`, as an owned string.
pub fn trimmed(s: &str) -> (r: String)
    ensures
        r@ == trim_seq(s@),
{
    let chars = chars_of(s);
    let t = trim_chars(&chars);
    string_from_chars(&t)
}

/// Some style other than the one at `except` has the ID `id`.
pub open spec fn style_id_taken(styles: Seq<TerminalStyle>, id: Seq<char>, except: int) -> bool {
    exists|i: int| 0 <= i < styles.len() && i != except && (#[trigger] styles[i]).id@ == id
}

/// Whether a style other than the one at `except` has the ID `id`.
fn find_style_id(styles: &Vec<TerminalStyle>, id: &str, except: Option<usize>) -> (r: bool)
    ensures
        r == style_id_taken(styles@, id@, match except {
            Some(e) => e as int,
            None => -1,
        }),
{
    let ghost e: int = match except {
        Some(e) => e as int,
        None => -1,
    };
    let mut i: usize = 0;
    while i < styles.len()
        invariant
            i <= styles@.len(),
            e == match except {
                Some(x) => x as int,
                None => -1,
            },
            forall|j: int| 0 <= j < i && j != e ==> (#[trigger] styles@[j]).id@ != id@,
        decreases styles.len() - i,
    {
        let skip = match except {
            Some(x) => x == i,
            None => false,
        };
        if !skip && string_equals(&styles[i].id, id) {
            return true;
        }
        i += 1;
    }
    false
}

/// The only character of `s`, if it has exactly one.
fn only_char(s: &str) -> (r: Option<char>)
    ensures
        r == if s@.len() == 1 {
            Some(s@[0])
        } else {
            None::<char>
        },
{
    let chars = chars_of(s);
    if chars.len() == 1 {
        Some(chars[0])
    } else {
        None
    }
}

/// The first character of `s` that is not a valid V1 cell character.
pub open spec fn first_invalid(s: Seq<char>, c: char) -> bool {
    exists|i: int|
        0 <= i < s.len() && s[i] == c && !spec_is_valid_v1_character(c) && forall|j: int|
            0 <= j < i ==> spec_is_valid_v1_character(#[trigger] s[j])
}

/// The first character of `s` that is not a valid V1 cell character.
fn find_invalid_char(s: &str) -> (r: Option<char>)
    ensures
        match r {
            Some(c) => first_invalid(s@, c),
            None => forall|j: int| 0 <= j < s@.len() ==> spec_is_valid_v1_character(#[trigger] s@[j]),
        },
{
    let chars = chars_of(s);
    let mut i: usize = 0;
    while i < chars.len()
        invariant
            i <= chars@.len(),
            chars@ == s@,
            forall|j: int| 0 <= j < i ==> spec_is_valid_v1_character(#[trigger] s@[j]),
        decreases chars.len() - i,
    {
        let c = chars[i];
        if !is_valid_v1_character(c) {
            assert(s@[i as int] == c);
            return Some(c);
        }
        i += 1;
    }
    None
}

/// `s` with its message replaced by `m`.
pub open spec fn with_message(s: AppState, m: String) -> AppState {
    AppState { message: m, ..s }
}

/// The document a new-canvas dialog makes: a blank image (or animation) of
/// the given size.
pub open spec fn made_project(p: Project, width: u16, height: u16, animation: bool) -> bool {
    &&& p.asset.width == width
    &&& p.asset.height == height
    &&& p.asset.kind == if animation {
        AssetKind::Animation
    } else {
        AssetKind::Image
    }
    &&& p.styles@.len() == 1
    &&& p.frames@.len() == 1
    &&& p.frames@[0].cells@.dom().len() == 0
}

/// What committing a dialog did when it started a new canvas.
pub open spec fn new_canvas(
    o: AppState,
    f: AppState,
    input: Seq<char>,
    target_path: Option<String>,
    animation: bool,
) -> bool {
    let noun = if animation {
        " animation"@
    } else {
        " image"@
    };
    match spec_parse_dimensions(input) {
        Some((w, h)) => {
            &&& made_project(f.project, w, h, animation)
            &&& (target_path is None ==> f.project.asset.name@ == "untitled"@)
            &&& (target_path matches Some(p) ==> (crate::editor::actions::plain_name(p@) ==> f.project.asset.name@
                == crate::editor::actions::stem_of(p@)))
            &&& f.project.asset.name@.len() > 0
            &&& f.screen == Screen::Editor
            &&& f.file_path == target_path
            &&& f.dirty
            &&& f.modal is None
            &&& f.undo_stack@.len() == 0
            &&& f.redo_stack@.len() == 0
            &&& f.message@ == "Created "@ + decimal_text(w as nat) + "x"@ + decimal_text(h as nat) + noun
        },
        None => {
            &&& f == (AppState { modal: f.modal, message: f.message, ..o })
            &&& f.message@ == "Enter dimensions as WIDTHxHEIGHT, like 48x16"@
            &&& (if animation {
                f.modal matches Some(Modal::NewAnimation { input: i, target_path: t }) && i@ == input && t
                    == target_path
            } else {
                f.modal matches Some(Modal::NewImage { input: i, target_path: t }) && i@ == input && t == target_path
            })
        },
    }
}

/// Only the current style's fields other than those named differ: `fg`,
/// `bg` and `id` are the new values.
pub open spec fn current_style_set(o: AppState, f: AppState, id: Seq<char>, fg: Color, bg: Option<Color>) -> bool {
    let i = o.current_style as int;
    let s = o.project.styles@;
    &&& f.project.asset == o.project.asset
    &&& f.project.layout == o.project.layout
    &&& f.project.frames == o.project.frames
    &&& f.project.styles@.len() == s.len()
    &&& forall|j: int| 0 <= j < s.len() && j != i ==> f.project.styles@[j] == #[trigger] s[j]
    &&& f.project.styles@[i].id@ == id
    &&& f.project.styles@[i].fg == fg
    &&& f.project.styles@[i].bg == bg
    &&& f.project.styles@[i].attrs@ == s[i].attrs@
    &&& f.project.styles@[i].role == s[i].role
    &&& f.current_style == o.current_style
    &&& f.dirty
}

/// What committing the new-style dialog with `input` did: a copy of the
/// current style under the trimmed ID, without a role, becomes current; an
/// empty or taken ID hands the dialog back.
pub open spec fn style_created(o: AppState, f: AppState, input: Seq<char>) -> bool {
    let id = trim_seq(input);
    let s = o.project.styles@;
    let cur = s[o.current_style as int];
    if id.len() == 0 || style_id_taken(s, id, -1) {
        &&& f.message@ == "Style ID must be non-empty and unique"@
        &&& f.modal matches Some(Modal::NewStyle { input: i }) && i@ == input
        &&& f.project == o.project
    } else {
        &&& f.project.asset == o.project.asset
        &&& f.project.layout == o.project.layout
        &&& f.project.frames == o.project.frames
        &&& f.project.styles@.len() == s.len() + 1
        &&& forall|j: int| 0 <= j < s.len() ==> f.project.styles@[j] == #[trigger] s[j]
        &&& f.project.styles@[s.len() as int].id@ == id
        &&& f.project.styles@[s.len() as int].fg == cur.fg
        &&& f.project.styles@[s.len() as int].bg == cur.bg
        &&& f.project.styles@[s.len() as int].attrs@ == cur.attrs@
        &&& f.project.styles@[s.len() as int].role is None
        &&& f.current_style == s.len()
        &&& f.dirty
        &&& f.message@ == "Created style "@ + str_debug_text(id)
    }
}

/// What committing the rename dialog with `input` did: the current style
/// takes the trimmed ID, unless it is empty or another style has it.
pub open spec fn style_renamed(o: AppState, f: AppState, input: Seq<char>) -> bool {
    let id = trim_seq(input);
    let s = o.project.styles@;
    let cur = s[o.current_style as int];
    if id.len() == 0 || style_id_taken(s, id, o.current_style as int) {
        &&& f.message@ == "Style ID must be non-empty and unique"@
        &&& f.modal matches Some(Modal::RenameStyle { input: i }) && i@ == input
        &&& f.project == o.project
    } else {
        &&& current_style_set(o, f, id, cur.fg, cur.bg)
        &&& f.message@ == "Renamed style to "@ + str_debug_text(id)
    }
}

/// Style IDs a document can hold: none blank, no two alike.
pub open spec fn style_ids_sound(styles: Seq<TerminalStyle>) -> bool {
    &&& forall|i: int| 0 <= i < styles.len() ==> !is_blank((#[trigger] styles[i]).id@)
    &&& forall|i: int, j: int|
        0 <= i < j < styles.len() ==> (#[trigger] styles[i]).id@ != (#[trigger] styles[j]).id@
}

/// Creating or renaming a style through its dialog keeps the style IDs
/// non-blank and pairwise distinct.
pub proof fn lemma_style_dialogs_keep_ids_sound(o: AppState, f: AppState, input: Seq<char>)
    requires
        o.wf(),
        style_ids_sound(o.project.styles@),
        style_created(o, f, input) || style_renamed(o, f, input),
    ensures
        style_ids_sound(f.project.styles@),
{
    let id = trim_seq(input);
    let s = o.project.styles@;
    let t = f.project.styles@;
    let cur = o.current_style as int;
    lemma_trimmed_not_blank(input);
    if style_created(o, f, input) && !(id.len() == 0 || style_id_taken(s, id, -1)) {
        assert forall|i: int| 0 <= i < t.len() implies !is_blank((#[trigger] t[i]).id@) by {
            if i < s.len() {
                assert(t[i] == s[i]);
            }
        }
        assert forall|i: int, j: int| 0 <= i < j < t.len() implies (#[trigger] t[i]).id@ != (#[trigger] t[j]).id@ by {
            assert(t[i] == s[i]);
            if j < s.len() {
                assert(t[j] == s[j]);
            } else {
                assert(!(s[i].id@ == id));
            }
        }
    } else if style_renamed(o, f, input) && !(id.len() == 0 || style_id_taken(s, id, cur)) {
        assert forall|i: int| 0 <= i < t.len() implies !is_blank((#[trigger] t[i]).id@) by {
            if i != cur {
                assert(t[i] == s[i]);
            }
        }
        assert forall|i: int, j: int| 0 <= i < j < t.len() implies (#[trigger] t[i]).id@ != (#[trigger] t[j]).id@ by {
            if i != cur {
                assert(t[i] == s[i]);
            }
            if j != cur {
                assert(t[j] == s[j]);
            }
            if i == cur {
                assert(!(s[j].id@ == id));
            }
            if j == cur {
                assert(!(s[i].id@ == id));
            }
        }
    }
}

/// What committing the foreground dialog with `input` did.
pub open spec fn foreground_set(o: AppState, f: AppState, input: Seq<char>) -> bool {
    let cur = o.project.styles@[o.current_style as int];
    match spec_parse_hex(trim_seq(input)) {
        Some(c) => {
            &&& current_style_set(o, f, cur.id@, c, cur.bg)
            &&& f.message@ == "Foreground set to "@ + spec_to_hex(c)
        },
        None => {
            &&& f.message@ == "Foreground must be #RRGGBB"@
            &&& f.modal matches Some(Modal::SetFg { input: i }) && i@ == input
            &&& f.project == o.project
        },
    }
}

/// What committing the background dialog with `input` did.
pub open spec fn background_set(o: AppState, f: AppState, input: Seq<char>) -> bool {
    let cur = o.project.styles@[o.current_style as int];
    let v = trim_seq(input);
    if v == "transparent"@ {
        &&& current_style_set(o, f, cur.id@, cur.fg, None)
        &&& f.message@ == "Background set to transparent"@
    } else {
        match spec_parse_hex(v) {
            Some(c) => {
                &&& current_style_set(o, f, cur.id@, cur.fg, Some(c))
                &&& f.message@ == "Background set to "@ + spec_to_hex(c)
            },
            None => {
                &&& f.message@ == "Background must be #RRGGBB or transparent"@
                &&& f.modal matches Some(Modal::SetBg { input: i }) && i@ == input
                &&& f.project == o.project
            },
        }
    }
}

/// What acting on the dialog `modal` in state `o` does: the state `f` it
/// leaves and the outside work `r` it asks for.
pub open spec fn committed(o: AppState, modal: Modal, f: AppState, r: Request) -> bool {
    match modal {
        Modal::NewImage { input, target_path } => r is Nothing && new_canvas(
            o,
            f,
            input@,
            target_path,
            false,
        ),
        Modal::NewAnimation { input, target_path } => r is Nothing && new_canvas(
            o,
            f,
            input@,
            target_path,
            true,
        ),
        Modal::OpenFile { input } => if trim_seq(input@).len() == 0 {
            &&& r is Nothing
            &&& f.message@ == "Path cannot be empty"@
            &&& f.modal matches Some(Modal::OpenFile { input: i }) && i@.len() == 0
            &&& f == (AppState { modal: f.modal, message: f.message, ..o })
        } else {
            &&& r matches Request::Open { path } && path@ == trim_seq(input@)
            &&& f == o
        },
        Modal::SaveAs { input } => if trim_seq(input@).len() == 0 {
            &&& r is Nothing
            &&& f.message@ == "Save path cannot be empty"@
            &&& f.modal matches Some(Modal::SaveAs { .. })
            &&& f == (AppState { modal: f.modal, message: f.message, ..o })
        } else {
            &&& r matches Request::CheckSaveTarget { path } && path@ == with_save_suffix(trim_seq(input@))
            &&& f == o
        },
        Modal::OverwriteConfirm { path } => {
            &&& r matches Request::Save { path: p, quit_after } && p@ == path@ && !quit_after
            &&& f.file_path == Some(path)
            &&& f.project == o.project
        },
        Modal::BrushChar { input } => if input@.len() == 1 && spec_is_valid_v1_character(input@[0]) {
            &&& r is Nothing
            &&& f.brush_char == input@[0]
            &&& f.message@ == "Brush character set to "@ + char_debug_text(input@[0])
            &&& f == (AppState { brush_char: f.brush_char, message: f.message, ..o })
        } else {
            &&& r is Nothing
            &&& f.brush_char == o.brush_char
            &&& f.message@ == "Brush character must be one valid V1 character"@
            &&& f.modal matches Some(Modal::BrushChar { input: i }) && i@ == input@
            &&& f == (AppState { modal: f.modal, message: f.message, ..o })
        },
        Modal::TextInput { input, start } => if input@.len() == 0 {
            &&& r is Nothing
            &&& f.message@ == "Text cannot be empty"@
            &&& f.modal matches Some(Modal::TextInput { input: i, start: s }) && i@ == input@ && s
                == start
            &&& f == (AppState { modal: f.modal, message: f.message, ..o })
        } else if exists|c: char| first_invalid(input@, c) {
            &&& r is Nothing
            &&& exists|c: char| #[trigger] first_invalid(input@, c) && f.message@
                == "Text contains invalid V1 character "@ + char_debug_text(c)
            &&& f.modal matches Some(Modal::TextInput { input: i, start: s }) && i@ == input@ && s
                == start
            &&& f == (AppState { modal: f.modal, message: f.message, ..o })
        } else {
            let u = text_updates(
                input@,
                start.0,
                start.1,
                o.current_style,
                o.project.asset.width,
                o.project.asset.height,
            );
            let fit = text_fit(input@.len(), start.0, start.1, o.project.asset.width, o.project.asset.height);
            &&& r is Nothing
            &&& applied(o, f, u)
            &&& f.message@ == if fit < input@.len() {
                "Placed text ("@ + decimal_text(fit) + " chars, clipped)"@
            } else {
                apply_message(o, u, "Placed text"@)
            }
        },
        Modal::NewStyle { input } => r is Nothing && style_created(o, f, input@),
        Modal::RenameStyle { input } => r is Nothing && style_renamed(o, f, input@),
        Modal::SetFg { input } => r is Nothing && foreground_set(o, f, input@),
        Modal::SetBg { input } => r is Nothing && background_set(o, f, input@),
        Modal::RgbInput { color } => {
            &&& r is Nothing
            &&& f.tool == Tool::Pencil
            &&& f.recent_extra_colors == o.recent_extra_colors
            &&& f.message@ == "Selected "@ + match o.color_target {
                ColorTarget::Foreground => "foreground"@,
                ColorTarget::Background => "background"@,
            } + " RGB "@ + spec_to_hex(color)
            &&& exists|m: String, b: bool| #[trigger] variant_selected(
                o,
                with_message(f, m),
                picked_fg(o, color),
                picked_bg(o, color),
                o.project.styles@[o.current_style as int].attrs@,
                picked_base(o, color, spec_color_id_base(color)),
                picked_label(o, color, spec_to_hex(color)),
                b,
            )
        },
        Modal::ExportText { input } => if trim_seq(input@).len() == 0 {
            &&& r is Nothing
            &&& f.message@ == "Export path cannot be empty"@
            &&& f.modal matches Some(Modal::ExportText { input: i }) && i@ == input@
            &&& f.project == o.project
        } else {
            &&& r matches Request::WriteText { path, contents } && path@ == trim_seq(input@) && contents@
                == plain_text_rows(
                exported_frame(o.project, o.current_frame_index as int),
                o.project.asset.width as int,
                o.project.asset.height as int,
            )
            &&& f == o
        },
        Modal::ExportAnsi { input } => if trim_seq(input@).len() == 0 {
            &&& r is Nothing
            &&& f.message@ == "Export path cannot be empty"@
            &&& f.modal matches Some(Modal::ExportAnsi { input: i }) && i@ == input@
            &&& f.project == o.project
        } else {
            &&& r matches Request::WriteAnsi { path, contents } && path@ == trim_seq(input@) && contents@
                == ansi_rows(
                exported_frame(o.project, o.current_frame_index as int),
                o.project.styles@,
                o.project.asset.width as int,
                o.project.asset.height as int,
            )
            &&& f == o
        },
        _ => r is Nothing && f == o,
    }
}

impl AppState {
    /// Acts on a dialog's contents, as Enter or its confirm button does.
    /// A dialog whose contents are refused comes back with a message
    /// saying why; outside work (reading, writing files) is returned as a
    /// request.
    #[verifier::spinoff_prover]
    #[verifier::rlimit(60)]
    pub fn commit_modal(&mut self, modal: Modal) -> (r: Request)
        requires
            old(self).wf(),
        ensures
            final(self).wf(),
            committed(*old(self), modal, *final(self), r),
    {
        match modal {
            Modal::NewImage { input, target_path } => {
                self.commit_new_canvas(input, target_path, false);
                Request::Nothing
            },
            Modal::NewAnimation { input, target_path } => {
                self.commit_new_canvas(input, target_path, true);
                Request::Nothing
            },
            Modal::OpenFile { input } => {
                let path = trimmed(input.as_str());
                if chars_of(path.as_str()).len() == 0 {
                    self.message = owned("Path cannot be empty");
                    self.modal = Some(Modal::OpenFile { input: String::new() });
                    return Request::Nothing;
                }
                Request::Open { path }
            },
            Modal::SaveAs { input } => {
                let path = trimmed(input.as_str());
                if chars_of(path.as_str()).len() == 0 {
                    self.message = owned("Save path cannot be empty");
                    self.open_save_as();
                    return Request::Nothing;
                }
                Request::CheckSaveTarget { path: save_path(path) }
            },
            Modal::OverwriteConfirm { path } => {
                self.file_path = Some(path);
                self.save(false)
            },
            Modal::BrushChar { input } => {
                match only_char(input.as_str()) {
                    Some(ch) => {
                        if is_valid_v1_character(ch) {
                            self.brush_char = ch;
                            let mut m = owned("Brush character set to ");
                            push_str(&mut m, char_debug_string(ch).as_str());
                            self.message = m;
                            return Request::Nothing;
                        }
                    },
                    None => {},
                }
                self.message = owned("Brush character must be one valid V1 character");
                self.modal = Some(Modal::BrushChar { input });
                Request::Nothing
            },
            Modal::TextInput { input, start } => {
                if chars_of(input.as_str()).len() == 0 {
                    self.message = owned("Text cannot be empty");
                    self.modal = Some(Modal::TextInput { input, start });
                    return Request::Nothing;
                }
                match find_invalid_char(input.as_str()) {
                    Some(ch) => {
                        let mut m = owned("Text contains invalid V1 character ");
                        push_str(&mut m, char_debug_string(ch).as_str());
                        self.message = m;
                        self.modal = Some(Modal::TextInput { input, start });
                        return Request::Nothing;
                    },
                    None => {},
                }
                self.place_text(start.0, start.1, input.as_str());
                Request::Nothing
            },
            Modal::NewStyle { input } => {
                self.commit_new_style(input);
                Request::Nothing
            },
            Modal::RenameStyle { input } => {
                self.commit_rename_style(input);
                Request::Nothing
            },
            Modal::SetFg { input } => {
                self.commit_foreground(input);
                Request::Nothing
            },
            Modal::SetBg { input } => {
                self.commit_background(input);
                Request::Nothing
            },
            Modal::RgbInput { color } => {
                let ghost before = *self;
                let target = self.color_target;
                self.select_custom_color(color, false);
                let mut m = owned("Selected ");
                push_str(&mut m, target.lower_label());
                push_str(&mut m, " RGB ");
                push_str(&mut m, color.to_hex().as_str());
                let ghost mid = *self;
                self.message = m;
                proof {
                    assert(with_message(*self, mid.message) == mid);
                }
                Request::Nothing
            },
            Modal::ExportText { input } => {
                let path = trimmed(input.as_str());
                if chars_of(path.as_str()).len() == 0 {
                    self.message = owned("Export path cannot be empty");
                    self.modal = Some(Modal::ExportText { input });
                    return Request::Nothing;
                }
                let contents = export_plain_text(&self.project, self.current_frame_index);
                Request::WriteText { path, contents }
            },
            Modal::ExportAnsi { input } => {
                let path = trimmed(input.as_str());
                if chars_of(path.as_str()).len() == 0 {
                    self.message = owned("Export path cannot be empty");
                    self.modal = Some(Modal::ExportAnsi { input });
                    return Request::Nothing;
                }
                proof {
                    assert(crate::export::cell_styles_exist(self.project));
                }
                let contents = export_ansi(&self.project, self.current_frame_index);
                Request::WriteAnsi { path, contents }
            },
            _ => Request::Nothing,
        }
    }

    /// Starts a new canvas of the size typed into a new-image or
    /// new-animation dialog, or hands the dialog back when the size is not
    /// one.
    fn commit_new_canvas(&mut self, input: String, target_path: Option<String>, animation: bool)
        requires
            old(self).wf(),
        ensures
            final(self).wf(),
            new_canvas(*old(self), *final(self), input@, target_path, animation),
    {
        match parse_dimensions(input.as_str()) {
            Some((width, height)) => {
                let name = match &target_path {
                    Some(p) => asset_name_from_path(p.as_str()),
                    None => owned("untitled"),
                };
                let mut project = Project::new_image(name.as_str(), width, height);
                if animation {
                    project.asset.kind = AssetKind::Animation;
                }
                proof {
                    reveal_strlit("untitled");
                    assert(project.frames@[0].cells@.dom() =~= Set::<crate::model::CellKey>::empty());
                }
                let mut m = owned("Created ");
                push_str(&mut m, decimal_string(width as u64).as_str());
                push_str(&mut m, "x");
                push_str(&mut m, decimal_string(height as u64).as_str());
                push_str(&mut m, if animation { " animation" } else { " image" });
                *self = AppState::editor(project, target_path, true, m);
            },
            None => {
                self.message = owned("Enter dimensions as WIDTHxHEIGHT, like 48x16");
                if animation {
                    self.modal = Some(Modal::NewAnimation { input, target_path });
                } else {
                    self.modal = Some(Modal::NewImage { input, target_path });
                }
            },
        }
    }
    /// Adds a copy of the current style under the ID typed into the
    /// new-style dialog.
    fn commit_new_style(&mut self, input: String)
        requires
            old(self).wf(),
        ensures
            final(self).wf(),
            style_created(*old(self), *final(self), input@),
    {
        let id = trimmed(input.as_str());
        if chars_of(id.as_str()).len() == 0 || find_style_id(&self.project.styles, id.as_str(), None) {
            self.message = owned("Style ID must be non-empty and unique");
            self.modal = Some(Modal::NewStyle { input });
            return;
        }
        let current = &self.project.styles[self.current_style];
        let style = TerminalStyle {
            id: owned(id.as_str()),
            fg: current.fg,
            bg: current.bg,
            attrs: copy_attrs(&current.attrs),
            role: None,
        };
        self.project.styles.push(style);
        self.current_style = self.project.styles.len() - 1;
        self.dirty = true;
        let mut m = owned("Created style ");
        push_str(&mut m, str_debug_string(id.as_str()).as_str());
        self.message = m;
    }

    /// Replaces the current style's ID, foreground and background, keeping
    /// its attributes and role.
    fn set_current_style(&mut self, id: String, fg: Color, bg: Option<Color>)
        requires
            old(self).wf(),
        ensures
            final(self).wf(),
            current_style_set(*old(self), *final(self), id@, fg, bg),
            final(self).message == old(self).message,
            final(self).modal == old(self).modal,
    {
        let i = self.current_style;
        let mut style = TerminalStyle { id: String::new(), fg, bg: None, attrs: Vec::new(), role: None };
        self.project.styles.set_and_swap(i, &mut style);
        style.id = id;
        style.fg = fg;
        style.bg = bg;
        self.project.styles.set(i, style);
        self.dirty = true;
    }

    /// Renames the current style to the ID typed into the rename dialog.
    fn commit_rename_style(&mut self, input: String)
        requires
            old(self).wf(),
        ensures
            final(self).wf(),
            style_renamed(*old(self), *final(self), input@),
    {
        let id = trimmed(input.as_str());
        if chars_of(id.as_str()).len() == 0 || find_style_id(
            &self.project.styles,
            id.as_str(),
            Some(self.current_style),
        ) {
            self.message = owned("Style ID must be non-empty and unique");
            self.modal = Some(Modal::RenameStyle { input });
            return;
        }
        let fg = self.project.styles[self.current_style].fg;
        let bg = self.project.styles[self.current_style].bg;
        let mut m = owned("Renamed style to ");
        push_str(&mut m, str_debug_string(id.as_str()).as_str());
        self.set_current_style(id, fg, bg);
        self.message = m;
    }

    /// Sets the current style's foreground to the color typed into the
    /// foreground dialog.
    fn commit_foreground(&mut self, input: String)
        requires
            old(self).wf(),
        ensures
            final(self).wf(),
            foreground_set(*old(self), *final(self), input@),
    {
        let value = trimmed(input.as_str());
        match Color::parse_hex(value.as_str()) {
            Some(color) => {
                let id = owned(self.project.styles[self.current_style].id.as_str());
                let bg = self.project.styles[self.current_style].bg;
                self.set_current_style(id, color, bg);
                let mut m = owned("Foreground set to ");
                push_str(&mut m, color.to_hex().as_str());
                self.message = m;
            },
            None => {
                self.message = owned("Foreground must be #RRGGBB");
                self.modal = Some(Modal::SetFg { input });
            },
        }
    }

    /// Sets the current style's background to the color typed into the
    /// background dialog, or to none for `transparent`.
    fn commit_background(&mut self, input: String)
        requires
            old(self).wf(),
        ensures
            final(self).wf(),
            background_set(*old(self), *final(self), input@),
    {
        proof {
            reveal_strlit("transparent");
        }
        let value = trimmed(input.as_str());
        let id = owned(self.project.styles[self.current_style].id.as_str());
        let fg = self.project.styles[self.current_style].fg;
        if string_equals(&value, "transparent") {
            self.set_current_style(id, fg, None);
            self.message = owned("Background set to transparent");
            return;
        }
        match Color::parse_hex(value.as_str()) {
            Some(color) => {
                self.set_current_style(id, fg, Some(color));
                let mut m = owned("Background set to ");
                push_str(&mut m, color.to_hex().as_str());
                self.message = m;
            },
            None => {
                self.message = owned("Background must be #RRGGBB or transparent");
                self.modal = Some(Modal::SetBg { input });
            },
        }
    }
}

} // verus!
