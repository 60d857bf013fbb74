use vstd::prelude::*;
use vstd::std_specs::iter::IteratorSpec;

use crate::editor::controls::{
    channel_value, with_channel, ColorControl, ColorTarget, ModalAction, PaletteHover, RgbChannel, RgbControl,
    SelectionAction, Screen, Tool, TopAction, WelcomeAction,
};
use crate::editor::commit::with_message;
use crate::editor::geometry::{
    hit_palette_item, rect_contains, rgb_slider_value_at, spec_hit_palette_item, spec_rect_contains, ScreenRect,
};
use crate::editor::styles::{attr_toggled, custom_color_picked, palette_color_picked};
use crate::editor::tools::{selection_cleared, selection_copied, selection_cut, selection_deleted, selection_stamped};
use crate::editor::palette::{
    brush_label, character_palette, color_palette, palette_chars, palette_colors, PaletteColor, CHAR_SLOT_WIDTH,
    COLOR_SLOT_WIDTH, EXPANDED_COLOR_COLUMNS, MORE_COLOR_COUNT,
};
use crate::editor::state::{frames_styled, AppState, ButtonHit, HoverState, Modal, DEFAULT_NEW_HEIGHT, DEFAULT_NEW_WIDTH};
use crate::error::{validation_summary, FormatError};
use crate::raw::RawProject;
use crate::validate::{cells_sound, lemma_loaded_project_sound, project_from_raw, raw_project_ok};
use crate::model::{spec_to_hex, Color, LoadedProject, Project, TextAttr, ValidationReport, MAX_FRAMES};
use crate::text::{char_debug_text, chars_of, decimal_string, decimal_text, owned, push_char, push_str, string_from_chars};

verus! {

/// Outside work the editor asks for; the caller performs it and reports
/// the outcome back through the matching `finish_` method.
#[derive(Debug)]
pub enum Request {
    Nothing,
    /// Write the document to `path`; quit afterwards if that succeeds and
    /// `quit_after` is set.
    Save { path: String, quit_after: bool },
    /// Load the document at `path`, if it exists.
    Open { path: String },
    /// Find out whether `path` exists before saving there.
    CheckSaveTarget { path: String },
    /// Write `contents` to `path`.
    WriteText { path: String, contents: String },
    /// Write `contents`, a frame as ANSI text, to `path`.
    WriteAnsi { path: String, contents: String },
    /// Pick entry `index` of the expanded color picker.
    PickColor { index: usize },
}

/// How the editor starts: on the welcome screen, on a new image to be
/// saved at a path, on the document at a path, or asking the size of a
/// new document for a path that does not exist yet.
pub enum Startup {
    Welcome,
    New { width: u16, height: u16, path: String },
    Open(String),
    CreateAt(String),
}

/// How to start on `path`: open it when it exists, else offer to create
/// it.
pub fn startup_from_path(path: String, exists: bool) -> (r: Startup)
    ensures
        exists ==> (r matches Startup::Open(p) && p == path),
        !exists ==> (r matches Startup::CreateAt(p) && p == path),
{
    if exists {
        Startup::Open(path)
    } else {
        Startup::CreateAt(path)
    }
}

/// What became of a request to open a document.
pub enum OpenOutcome {
    Missing,
    Loaded(LoadedProject),
    Failed(FormatError),
}

/// The action of the first control drawn over `(column, row)`.
pub open spec fn spec_find_hit<T>(hits: Seq<ButtonHit<T>>, column: u16, row: u16) -> Option<T>
    decreases hits.len(),
{
    if hits.len() == 0 {
        None
    } else if spec_rect_contains(hits[0].area, column, row) {
        Some(hits[0].action)
    } else {
        spec_find_hit(hits.drop_first(), column, row)
    }
}

/// The action of the first control drawn over `(column, row)`.
pub fn find_hit<T: Copy>(hits: &Vec<ButtonHit<T>>, column: u16, row: u16) -> (r: Option<T>)
    ensures
        r == spec_find_hit(hits@, column, row),
{
    let mut i: usize = 0;
    proof {
        assert(hits@.skip(0) =~= hits@);
    }
    while i < hits.len()
        invariant
            i <= hits@.len(),
            spec_find_hit(hits@, column, row) == spec_find_hit(hits@.skip(i as int), column, row),
        decreases hits.len() - i,
    {
        proof {
            assert(hits@.skip(i as int)[0] == hits@[i as int]);
            assert(hits@.skip(i as int).drop_first() =~= hits@.skip(i + 1));
        }
        if rect_contains(hits[i].area, column, row) {
            return Some(hits[i].action);
        }
        i += 1;
    }
    proof {
        assert(hits@.skip(i as int).len() == 0);
    }
    None
}

/// Whether every cell names one of the first `n` styles.
pub fn cells_all_styled(cells: &std::collections::BTreeMap<crate::model::CellKey, crate::model::PaintedCell>, n: usize) -> (r: bool)
    ensures
        r == crate::editor::state::cells_styled(cells@, n as nat),
{
    let ghost seq0 = vstd::std_specs::btree::spec_btree_map_iter(cells).remaining();
    for entry in it: cells.iter()
        invariant
            it.seq() == seq0,
            forall|j: int| 0 <= j < it.index() ==> (*seq0[j].1).style_index < n,
    {
        proof {
            assert(seq0[it.index() as int] == entry);
        }
        if entry.1.style_index >= n {
            proof {
                let j = it.index() as int;
                assert(cells@.contains_key(*seq0[j].0) && cells@[*seq0[j].0] == *seq0[j].1);
            }
            return false;
        }
    }
    proof {
        assert forall|k| #[trigger] cells@.contains_key(k) implies cells@[k].style_index < n by {
            assert(seq0.contains((&k, &cells@[k])));
            let j = choose|j: int| 0 <= j < seq0.len() && seq0[j] == (&k, &cells@[k]);
        }
    }
    true
}

/// The project can be edited: it has frames (not too many) and styles, and
/// its cells name existing styles.
pub open spec fn editable(p: Project) -> bool {
    &&& 1 <= p.frames@.len() <= MAX_FRAMES
    &&& p.styles@.len() >= 1
    &&& frames_styled(p)
}

/// A document that validation accepts can be edited, as long as it has a
/// style to paint with.
pub proof fn lemma_loaded_document_editable(p: Project, raw: RawProject)
    requires
        raw_project_ok(raw),
        project_from_raw(p, raw),
        p.styles@.len() >= 1,
    ensures
        editable(p),
{
    lemma_loaded_project_sound(p, raw);
    assert forall|f: int| 0 <= f < p.frames@.len() implies crate::editor::state::cells_styled(
        (#[trigger] p.frames@[f]).cells@,
        p.styles@.len(),
    ) by {
        assert(cells_sound(p.frames@[f].cells@, p.asset.width, p.asset.height, p.styles@.len() as int));
    }
}

/// Whether the project can be edited.
pub fn is_editable(p: &Project) -> (r: bool)
    ensures
        r == editable(*p),
{
    if p.frames.len() < 1 || p.frames.len() > MAX_FRAMES || p.styles.len() < 1 {
        return false;
    }
    let n = p.styles.len();
    let mut f: usize = 0;
    while f < p.frames.len()
        invariant
            f <= p.frames@.len(),
            n == p.styles@.len(),
            forall|g: int| 0 <= g < f ==> crate::editor::state::cells_styled((#[trigger] p.frames@[g]).cells@, n as nat),
        decreases p.frames.len() - f,
    {
        if !cells_all_styled(&p.frames[f].cells, n) {
            return false;
        }
        f += 1;
    }
    true
}

/// A path that is one plain file name on every platform: not empty, not
/// `.` or `..`, and free of `/`, `\` and `:` (which separate components or
/// start a drive prefix on some platforms).
pub open spec fn plain_name(s: Seq<char>) -> bool {
    &&& s.len() > 0
    &&& forall|i: int| 0 <= i < s.len() ==> s[i] != '/' && s[i] != '\\' && s[i] != ':'
    &&& s != "."@
    &&& s != ".."@
}

/// The index of the last `.` in `s`, or -1.
pub open spec fn last_dot(s: Seq<char>) -> int
    decreases s.len(),
{
    if s.len() == 0 {
        -1
    } else if s.last() == '.' {
        s.len() - 1
    } else {
        last_dot(s.drop_last())
    }
}

/// The stem of a file name, as std's `Path::file_stem` documents it: the
/// whole name when it has no `.` but a leading one, else what comes before
/// its last `.`.
pub open spec fn stem_of(s: Seq<char>) -> Seq<char> {
    if last_dot(s) <= 0 {
        s
    } else {
        s.take(last_dot(s))
    }
}

/// The file name of `path` without its extension, as std's
/// `Path::file_stem` reads it; `None` where there is none or it is not
/// text. For a plain file name that is `stem_of` the name; for other paths
/// what counts as a separator depends on the platform, and nothing is
/// promised.
#[verifier::external_body]
fn path_file_stem(path: &str) -> (r: Option<String>)
    ensures
        plain_name(path@) ==> r is Some && r->0@ == stem_of(path@),
{
    std::path::Path::new(path).file_stem().and_then(|stem| stem.to_str()).map(|stem| stem.to_string())
}

/// `path` with its extension set to `extension`, as std's
/// `PathBuf::set_extension` does it and `display` shows it: when the path
/// has no file name nothing changes; otherwise the path is kept up to the
/// end of its file stem and `.extension` follows. Where the stem ends
/// depends on the platform's separators, so that place is left open.
#[verifier::external_body]
fn path_with_extension(path: &str, extension: &str) -> (r: String)
    requires
        extension@.len() > 0,
        forall|i: int| 0 <= i < extension@.len() ==> extension@[i] != '/' && extension@[i] != '\\',
    ensures
        r@ == path@ || exists|k: int| 0 <= k <= path@.len() && r@ == #[trigger] path@.take(k) + "."@ + extension@,
        plain_name(path@) ==> r@ == stem_of(path@) + "."@ + extension@,
{
    let mut buf = std::path::PathBuf::from(path);
    buf.set_extension(extension);
    buf.display().to_string()
}

/// The last component of `path`, as std's `Path::file_name` reads it;
/// `None` where there is none or it is not text. A component never holds
/// `/`, which separates components on every platform; whether `\` does
/// depends on the platform, so nothing more is promised.
#[verifier::external_body]
fn path_file_name(path: &str) -> (r: Option<String>)
    ensures
        r matches Some(n) ==> forall|i: int| 0 <= i < n@.len() ==> n@[i] != '/',
        plain_name(path@) ==> r is Some && r->0@ == path@,
{
    std::path::Path::new(path).file_name().and_then(|name| name.to_str()).map(|name| name.to_string())
}

/// `path` with its last component replaced by `name`, as std's
/// `Path::with_file_name` does it (a pop, then a push of `name`) and
/// `display` shows it. The last component of `name` ends the result: after
/// its last `\`, which separates components on some platforms, or all of
/// it. What comes before, and the separator used, depend on the platform
/// and are left open.
#[verifier::external_body]
fn path_with_file_name(path: &str, name: &str) -> (r: String)
    requires
        forall|i: int| 0 <= i < name@.len() ==> name@[i] != '/',
        last_part(name@).len() > 0,
        last_part(name@) != "."@,
        last_part(name@) != ".."@,
    ensures
        last_part(name@).is_suffix_of(r@),
        plain_name(path@) && plain_name(name@) ==> r@ == name@,
{
    std::path::Path::new(path).with_file_name(name).display().to_string()
}

/// The hidden name a save is first written under: `.NAME.tmp` beside the
/// document, where NAME is the document's file name or
/// `terminal_animator`.
pub open spec fn temporary_file_name(name: Option<Seq<char>>) -> Seq<char> {
    "."@ + match name {
        Some(n) => n,
        None => "terminal_animator"@,
    } + ".tmp"@
}

/// The file name for `name`, as `temporary_path_for` puts it beside the
/// document.
pub fn temporary_file_name_for(name: Option<String>) -> (r: String)
    ensures
        r@ == temporary_file_name(match name {
            Some(n) => Some(n@),
            None => None,
        }),
{
    let mut t = owned(".");
    match &name {
        Some(n) => push_str(&mut t, n.as_str()),
        None => push_str(&mut t, "terminal_animator"),
    }
    push_str(&mut t, ".tmp");
    t
}

/// What follows the last `\` of `s`, or all of `s`.
pub open spec fn last_part(s: Seq<char>) -> Seq<char>
    decreases s.len(),
{
    if s.len() == 0 {
        s
    } else if s.last() == '\\' {
        Seq::empty()
    } else {
        last_part(s.drop_last()).push(s.last())
    }
}

/// Text without `\` keeps its place at the end of the last part.
proof fn lemma_last_part_append(s: Seq<char>, t: Seq<char>)
    requires
        forall|i: int| 0 <= i < t.len() ==> t[i] != '\\',
    ensures
        last_part(s + t) == last_part(s) + t,
    decreases t.len(),
{
    if t.len() == 0 {
        assert(s + t =~= s);
        assert(last_part(s) + t =~= last_part(s));
    } else {
        lemma_last_part_append(s, t.drop_last());
        assert((s + t).drop_last() =~= s + t.drop_last());
        assert((s + t).last() == t.last());
        assert(last_part(s) + t =~= (last_part(s) + t.drop_last()).push(t.last()));
    }
}

/// A suffix of a suffix is a suffix.
proof fn lemma_suffix_trans(a: Seq<char>, b: Seq<char>, c: Seq<char>)
    requires
        a.is_suffix_of(b),
        b.is_suffix_of(c),
    ensures
        a.is_suffix_of(c),
{
    assert forall|i: int| 0 <= i < a.len() implies a[i] == c.subrange(c.len() - a.len(), c.len() as int)[i] by {
        assert(a[i] == b.subrange(b.len() - a.len(), b.len() as int)[i]);
        assert(b[b.len() - a.len() + i] == c.subrange(c.len() - b.len(), c.len() as int)[b.len() - a.len() + i]);
    }
    assert(a =~= c.subrange(c.len() - a.len(), c.len() as int));
}

/// Where a save of the document at `path` is written before it replaces
/// the document: a hidden `.tmp` file beside it, `.NAME.tmp` for the
/// document's file name NAME (or `terminal_animator`).
pub fn temporary_path_for(path: &str) -> (r: String)
    ensures
        ".tmp"@.is_suffix_of(r@),
        exists|n: Option<Seq<char>>| #[trigger] last_part(temporary_file_name(n)).is_suffix_of(r@),
        plain_name(path@) ==> r@ == "."@ + path@ + ".tmp"@,
{
    let file_name = path_file_name(path);
    let ghost n: Option<Seq<char>> = match &file_name {
        Some(f) => Some(f@),
        None => None,
    };
    let name = temporary_file_name_for(file_name);
    proof {
        reveal_strlit(".tmp");
        reveal_strlit(".");
        reveal_strlit("terminal_animator");
        let head = "."@ + match n {
            Some(m) => m,
            None => "terminal_animator"@,
        };
        assert(name@ == head + ".tmp"@);
        lemma_last_part_append(head, ".tmp"@);
        let lp = last_part(name@);
        assert(lp == last_part(head) + ".tmp"@);
        assert(lp.len() >= 4);
        assert(lp != "."@) by {
            assert("."@.len() == 1);
        }
        assert(lp != ".."@) by {
            reveal_strlit("..");
            assert(".."@.len() == 2);
        }
        assert forall|i: int| 0 <= i < name@.len() implies name@[i] != '/' by {
            if i >= head.len() {
                assert(name@[i] == ".tmp"@[i - head.len()]);
            } else if i >= 1 {
                assert(name@[i] == head[i]);
                assert(head[i] == (match n {
                    Some(m) => m,
                    None => "terminal_animator"@,
                })[i - 1]);
            }
        }
    }
    proof {
        if plain_name(path@) {
            assert(n == Some(path@));
            assert forall|i: int| 0 <= i < name@.len() implies name@[i] != '/' && name@[i] != '\\' && name@[i] != ':' by {
                if i == 0 {
                    assert(name@[0] == '.');
                } else if i < 1 + path@.len() {
                    assert(name@[i] == path@[i - 1]);
                } else {
                    assert(name@[i] == ".tmp"@[i - 1 - path@.len()]);
                }
            }
            assert(name@.len() >= 6);
            assert(name@ != "."@ && name@ != ".."@) by {
                reveal_strlit("..");
            }
        }
    }
    let r = path_with_file_name(path, name.as_str());
    proof {
        let lp = last_part(name@);
        assert(".tmp"@.is_suffix_of(lp)) by {
            assert(lp.subrange(lp.len() - 4, lp.len() as int) =~= ".tmp"@);
        }
        lemma_suffix_trans(".tmp"@, lp, r@);
        assert(last_part(temporary_file_name(n)).is_suffix_of(r@));
    }
    r
}

/// The stem of a plain file name is not empty.
proof fn lemma_stem_not_empty(s: Seq<char>)
    requires
        s.len() > 0,
    ensures
        stem_of(s).len() > 0,
{
    lemma_last_dot_bound(s);
}

/// The last dot lies inside the text, or there is none.
proof fn lemma_last_dot_bound(s: Seq<char>)
    ensures
        -1 <= last_dot(s) < s.len(),
    decreases s.len(),
{
    if s.len() > 0 && s.last() != '.' {
        lemma_last_dot_bound(s.drop_last());
    }
}

/// The asset name a document path suggests: its file stem, or `untitled`.
pub fn asset_name_from_path(path: &str) -> (r: String)
    ensures
        r@.len() > 0,
        plain_name(path@) ==> r@ == stem_of(path@),
{
    proof {
        if plain_name(path@) {
            lemma_stem_not_empty(path@);
        }
    }
    proof {
        reveal_strlit("untitled");
    }
    match path_file_stem(path) {
        Some(stem) => {
            let chars = chars_of(stem.as_str());
            if chars.len() > 0 {
                stem
            } else {
                owned("untitled")
            }
        },
        None => owned("untitled"),
    }
}

/// Where a text export of the document at `path` goes by default: the
/// path with the extension `txt`, or the path itself where it names no
/// file.
pub fn default_text_export_path(path: &str) -> (r: String)
    ensures
        r@ == path@ || exists|k: int| 0 <= k <= path@.len() && r@ == #[trigger] path@.take(k) + "."@ + "txt"@,
        plain_name(path@) ==> r@ == stem_of(path@) + ".txt"@,
{
    proof {
        reveal_strlit("txt");
    }
    let r = path_with_extension(path, "txt");
    proof {
        reveal_strlit(".");
        reveal_strlit(".txt");
        assert(stem_of(path@) + "."@ + "txt"@ =~= stem_of(path@) + ".txt"@);
    }
    r
}

/// Where an ANSI export of the document at `path` goes by default: the
/// path with the extension `ansi`, or the path itself where it names no
/// file.
pub fn default_ansi_export_path(path: &str) -> (r: String)
    ensures
        r@ == path@ || exists|k: int| 0 <= k <= path@.len() && r@ == #[trigger] path@.take(k) + "."@ + "ansi"@,
        plain_name(path@) ==> r@ == stem_of(path@) + ".ansi"@,
{
    proof {
        reveal_strlit("ansi");
    }
    let r = path_with_extension(path, "ansi");
    proof {
        reveal_strlit(".");
        reveal_strlit(".ansi");
        assert(stem_of(path@) + "."@ + "ansi"@ =~= stem_of(path@) + ".ansi"@);
    }
    r
}

/// What a save blocked by validation shows: the first error, if any.
pub open spec fn save_blocked_text(report: ValidationReport) -> Seq<char> {
    if report.errors@.len() > 0 {
        "Save blocked: "@ + report.errors@[0].location@ + ": "@ + report.errors@[0].message@
    } else {
        "Save blocked by validation"@
    }
}

/// The message a failed save shows: the first validation error, or the
/// error's description.
pub fn format_save_error(error: FormatError) -> (r: String)
    ensures
        error matches FormatError::Validation(report) ==> r@ == save_blocked_text(report),
        !(error is Validation) ==> "Save failed: "@.is_prefix_of(r@),
        error is Toml ==> ("Save failed: "@ + "TOML parse error: "@).is_prefix_of(r@),
        error is Serialize ==> ("Save failed: "@ + "TOML serialize error: "@).is_prefix_of(r@),
{
    match error {
        FormatError::Validation(report) => {
            if report.errors.len() > 0 {
                let mut m = owned("Save blocked: ");
                push_str(&mut m, report.errors[0].location.as_str());
                push_str(&mut m, ": ");
                push_str(&mut m, report.errors[0].message.as_str());
                m
            } else {
                owned("Save blocked by validation")
            }
        },
        other => {
            let mut m = owned("Save failed: ");
            push_str(&mut m, other.describe().as_str());
            m
        },
    }
}

/// `s` with `suffix` appended.
fn concat(s: &str, suffix: &str) -> (r: String)
    ensures
        r@ == s@ + suffix@,
{
    let mut m = owned(s);
    push_str(&mut m, suffix);
    m
}

/// The width of the color picker's grid in a dialog drawn at `a`.
pub open spec fn picker_grid_width(a: ScreenRect) -> int {
    if a.width < 4 || a.height < 7 {
        0
    } else if a.width - 4 < 48 {
        a.width - 4
    } else {
        48
    }
}

/// The rectangle of the color picker's grid in a dialog drawn at `a`:
/// centered, at most twelve slots wide, between the text line and the
/// buttons.
pub open spec fn picker_grid(a: ScreenRect) -> ScreenRect {
    if a.width < 4 || a.height < 7 {
        ScreenRect { x: 0, y: 0, width: 0, height: 0 }
    } else {
        let width: int = picker_grid_width(a);
        let x: int = if a.x + (a.width - width) / 2 <= u16::MAX { a.x + (a.width - width) / 2 } else { u16::MAX as int };
        ScreenRect { x: x as u16, y: (a.y + 3) as u16, width: width as u16, height: (a.height - 6) as u16 }
    }
}

/// How many color columns the picker shows in a dialog drawn at `a`.
pub open spec fn picker_columns(a: ScreenRect) -> int {
    let c = picker_grid_width(a) / (COLOR_SLOT_WIDTH as int);
    if c < 1 {
        1
    } else if c > EXPANDED_COLOR_COLUMNS {
        EXPANDED_COLOR_COLUMNS as int
    } else {
        c
    }
}

/// How many color rows the picker shows in a dialog drawn at `a`.
pub open spec fn picker_rows(a: ScreenRect) -> int {
    if a.width < 4 || a.height < 7 {
        0
    } else {
        a.height - 6
    }
}

/// The first slider track drawn for `channel` among `hits`.
pub open spec fn first_slider(hits: Seq<ButtonHit<RgbControl>>, channel: RgbChannel) -> Option<ScreenRect>
    decreases hits.len(),
{
    if hits.len() == 0 {
        None
    } else if hits[0].action == RgbControl::Slider(channel) {
        Some(hits[0].area)
    } else {
        first_slider(hits.drop_first(), channel)
    }
}

/// `f` is `o` after the mouse at `column` set `channel` from its slider:
/// with the slider drawn and the RGB dialog open, the dialog's color takes
/// the slider's value at that column and the message shows it; otherwise
/// nothing changes.
pub open spec fn slider_moved(o: AppState, channel: RgbChannel, column: u16, f: AppState) -> bool {
    match (first_slider(o.areas.modal_rgb_areas@, channel), o.modal) {
        (Some(a), Some(Modal::RgbInput { color })) => {
            let c = with_channel(channel, color, crate::editor::geometry::spec_slider_value_at(a, column) as u8);
            &&& f.modal == Some(Modal::RgbInput { color: c })
            &&& f.message@ == "RGB preview "@ + spec_to_hex(c)
            &&& f == (AppState { modal: f.modal, message: f.message, ..o })
        },
        _ => f == o,
    }
}

/// `f` is `o` after stepping `channel` of the RGB dialog's color by
/// `delta`, within 0 to 255; the message shows the new color. Nothing
/// changes when the dialog is not open.
pub open spec fn rgb_stepped(o: AppState, channel: RgbChannel, delta: int, f: AppState) -> bool {
    match o.modal {
        Some(Modal::RgbInput { color }) => {
            let v = channel_value(channel, color) + delta;
            let nv = (if v < 0 { 0 } else if v > 255 { 255 } else { v }) as u8;
            &&& f.modal == Some(Modal::RgbInput { color: with_channel(channel, color, nv) })
            &&& f.message@ == "RGB preview "@ + spec_to_hex(with_channel(channel, color, nv))
            &&& f == (AppState { modal: f.modal, message: f.message, ..o })
        },
        _ => f == o,
    }
}

/// How many rows all the picker's colors take in a dialog drawn at `a`.
pub open spec fn picker_total_rows(a: ScreenRect) -> int {
    let c = picker_columns(a);
    (MORE_COLOR_COUNT as int + c - 1) / c
}

/// The furthest the picker in a dialog drawn at `a` scrolls: the rows of
/// all its colors less the rows it shows.
pub open spec fn picker_max_scroll(a: ScreenRect) -> int {
    let total = picker_total_rows(a);
    let visible = if picker_rows(a) < 1 {
        1
    } else {
        picker_rows(a)
    };
    if total > visible {
        total - visible
    } else {
        0
    }
}

/// What a color control does: choose the target color of palette picks,
/// or select the current style's variant without background.
pub open spec fn color_control_done(o: AppState, f: AppState, control: ColorControl) -> bool {
    &&& match control {
        ColorControl::Target(t) => f.color_target == t && f.project == o.project
            && f.message@ == "Palette edits "@ + match t {
            ColorTarget::Foreground => "foreground"@,
            ColorTarget::Background => "background"@,
        },
        ColorControl::TransparentBackground => {
            &&& f.color_target == ColorTarget::Background
            &&& exists|r: bool| #[trigger] crate::editor::styles::variant_selected(
                crate::editor::styles::with_target(o, ColorTarget::Background),
                f,
                o.project.styles@[o.current_style as int].fg,
                None,
                o.project.styles@[o.current_style as int].attrs@,
                crate::editor::palette::spec_variant_id_base(
                    o.project.styles@[o.current_style as int].fg,
                    None,
                    o.project.styles@[o.current_style as int].attrs@,
                ),
                "Background transparent"@,
                r,
            )
        },
    }
}

/// What a selection button does.
pub open spec fn selection_action_done(o: AppState, action: SelectionAction, f: AppState) -> bool {
    match action {
        SelectionAction::Copy => selection_copied(o, f),
        SelectionAction::Cut => selection_cut(o, f),
        SelectionAction::Delete => selection_deleted(o, f),
        SelectionAction::Stamp => selection_stamped(o, f),
        SelectionAction::Clear => selection_cleared(o, f),
    }
}

/// What a click on the sidebar does, trying in order the color controls,
/// the selection buttons, the attribute toggles, the palette colors, the
/// recent colors and the palette characters; `r` says whether one was hit.
pub open spec fn palette_click_done(o: AppState, column: u16, row: u16, f: AppState, r: bool) -> bool {
    match spec_find_hit(o.areas.color_control_areas@, column, row) {
        Some(control) => r && color_control_done(o, f, control),
        None => match spec_find_hit(o.areas.selection_action_areas@, column, row) {
            Some(action) => r && selection_action_done(o, action, f),
            None => match spec_find_hit(o.areas.attr_button_areas@, column, row) {
                Some(attr) => r && attr_toggled(o, f, attr),
                None => match spec_hit_palette_item(
                    o.areas.color_palette_area,
                    COLOR_SLOT_WIDTH,
                    column,
                    row,
                    palette_colors().len() as int,
                ) {
                    Some(i) => r && exists|pc: PaletteColor| pc.color == palette_colors()[i] && #[trigger] palette_color_picked(o, f, pc),
                    None => match spec_hit_palette_item(
                        o.areas.recent_color_palette_area,
                        COLOR_SLOT_WIDTH,
                        column,
                        row,
                        o.recent_extra_colors@.len() as int,
                    ) {
                        Some(i) => {
                            &&& r
                            &&& exists|m: String| #[trigger] custom_color_picked(
                                o,
                                with_message(f, m),
                                o.recent_extra_colors@[i],
                                false,
                            )
                            &&& f.message@ == "Selected recent "@ + spec_to_hex(o.recent_extra_colors@[i])
                        },
                        None => match spec_hit_palette_item(
                            o.areas.character_palette_area,
                            CHAR_SLOT_WIDTH,
                            column,
                            row,
                            palette_chars().len() as int,
                        ) {
                            Some(i) => {
                                &&& r
                                &&& f.brush_char == palette_chars()[i]
                                &&& f.tool == Tool::Pencil
                                &&& f.message@ == "Brush character set to "@ + char_debug_text(palette_chars()[i])
                                &&& f.project == o.project
                            },
                            None => !r && f == o,
                        },
                    },
                },
            },
        },
    }
}

impl AppState {
    /// The editor on a new image at `path`, unsaved.
    pub fn startup_new(path: String, width: u16, height: u16) -> (s: Self)
        ensures
            s.wf(),
            s.screen == Screen::Editor,
            s.project.asset.width == width,
            s.project.asset.height == height,
            s.file_path == Some(path),
            s.dirty,
            s.message@ == "New image ready. Ctrl-S saves it."@,
    {
        let name = asset_name_from_path(path.as_str());
        let project = Project::new_image(name.as_str(), width, height);
        AppState::editor(project, Some(path), true, owned("New image ready. Ctrl-S saves it."))
    }

    /// The editor on a document loaded from `path`.
    pub fn startup_opened(path: String, loaded: LoadedProject) -> (s: Self)
        requires
            editable(loaded.project),
        ensures
            s.wf(),
            s.screen == Screen::Editor,
            s.project == loaded.project,
            s.file_path == Some(path),
            !s.dirty,
            s.message@ == if loaded.warnings@.len() == 0 {
                "Opened "@ + path@
            } else {
                "Opened "@ + path@ + " with "@ + decimal_text(loaded.warnings@.len()) + " warning(s)"@
            },
    {
        let count = loaded.warnings.len();
        let mut m = owned("Opened ");
        push_str(&mut m, path.as_str());
        if count != 0 {
            push_str(&mut m, " with ");
            push_str(&mut m, decimal_string(count as u64).as_str());
            push_str(&mut m, " warning(s)");
        }
        AppState::editor(loaded.project, Some(path), false, m)
    }

    /// The welcome screen after `path` could not be opened.
    pub fn startup_open_failed(path: &str, error: &FormatError) -> (s: Self)
        ensures
            s.wf(),
            s.screen == Screen::Welcome,
            s.modal is None,
            ("Could not open "@ + path@ + ": "@).is_prefix_of(s.message@),
            error matches FormatError::Validation(report) ==> s.message@ == "Could not open "@ + path@ + ": "@
                + validation_summary(*report),
    {
        let mut m = owned("Could not open ");
        push_str(&mut m, path);
        push_str(&mut m, ": ");
        push_str(&mut m, error.describe().as_str());
        AppState::welcome(m)
    }

    /// The welcome screen asking for the size of a new document at `path`.
    pub fn startup_create_at(path: String) -> (s: Self)
        ensures
            s.wf(),
            s.screen == Screen::Welcome,
            s.modal matches Some(Modal::NewImage { input, target_path }) && input@ == "48x16"@ && target_path == Some(path),
    {
        let mut m = owned(path.as_str());
        push_str(&mut m, " does not exist. Enter dimensions like 48x16 to create it.");
        let mut app = AppState::welcome(m);
        app.modal = Some(Modal::NewImage { input: owned("48x16"), target_path: Some(path) });
        app
    }

    /// The plain welcome screen.
    pub fn startup_welcome() -> (s: Self)
        ensures
            s.wf(),
            s.screen == Screen::Welcome,
            s.message@ == "N new image, O open file, Q quit"@,
    {
        AppState::welcome(owned("N new image, O open file, Q quit"))
    }

    /// The top-bar button under the mouse.
    pub fn top_action_at(&self, column: u16, row: u16) -> (r: Option<TopAction>)
        ensures
            r == spec_find_hit(self.areas.top_action_areas@, column, row),
    {
        find_hit(&self.areas.top_action_areas, column, row)
    }

    /// The tool-menu entry under the mouse.
    pub fn modal_tool_at(&self, column: u16, row: u16) -> (r: Option<Tool>)
        ensures
            r == spec_find_hit(self.areas.modal_tool_areas@, column, row),
    {
        find_hit(&self.areas.modal_tool_areas, column, row)
    }

    /// The dialog button under the mouse.
    pub fn modal_action_at(&self, column: u16, row: u16) -> (r: Option<ModalAction>)
        ensures
            r == spec_find_hit(self.areas.modal_action_areas@, column, row),
    {
        find_hit(&self.areas.modal_action_areas, column, row)
    }

    /// The color-picker entry under the mouse.
    pub fn modal_color_at(&self, column: u16, row: u16) -> (r: Option<usize>)
        ensures
            r == spec_find_hit(self.areas.modal_color_areas@, column, row),
    {
        find_hit(&self.areas.modal_color_areas, column, row)
    }

    /// The RGB dialog control under the mouse.
    pub fn modal_rgb_control_at(&self, column: u16, row: u16) -> (r: Option<RgbControl>)
        ensures
            r == spec_find_hit(self.areas.modal_rgb_areas@, column, row),
    {
        find_hit(&self.areas.modal_rgb_areas, column, row)
    }

    /// The attribute toggle under the mouse.
    pub fn attr_action_at(&self, column: u16, row: u16) -> (r: Option<TextAttr>)
        ensures
            r == spec_find_hit(self.areas.attr_button_areas@, column, row),
    {
        find_hit(&self.areas.attr_button_areas, column, row)
    }

    /// The selection button under the mouse.
    pub fn selection_action_at(&self, column: u16, row: u16) -> (r: Option<SelectionAction>)
        ensures
            r == spec_find_hit(self.areas.selection_action_areas@, column, row),
    {
        find_hit(&self.areas.selection_action_areas, column, row)
    }

    /// The color control under the mouse.
    pub fn color_control_at(&self, column: u16, row: u16) -> (r: Option<ColorControl>)
        ensures
            r == spec_find_hit(self.areas.color_control_areas@, column, row),
    {
        find_hit(&self.areas.color_control_areas, column, row)
    }

    /// Records what the mouse is over in the editor: controls, palette
    /// items, and the canvas cell (only when no control is under it).
    pub fn update_hover(&mut self, column: u16, row: u16)
        ensures
            final(self).project == old(self).project,
            final(self).modal == old(self).modal,
            final(self).message == old(self).message,
            final(self).eq_tools(*old(self)),
            final(self).eq_selection(*old(self)),
            final(self).areas == old(self).areas,
            final(self).undo_stack == old(self).undo_stack,
            final(self).redo_stack == old(self).redo_stack,
            final(self).active_stroke == old(self).active_stroke,
            final(self).current_frame_index == old(self).current_frame_index,
            final(self).dirty == old(self).dirty,
            final(self).screen == old(self).screen,
            final(self).should_quit == old(self).should_quit,
            final(self).file_path == old(self).file_path,
            final(self).recent_extra_colors == old(self).recent_extra_colors,
            final(self).color_target == old(self).color_target,
            final(self).color_picker_scroll_row == old(self).color_picker_scroll_row,
            final(self).dragging_rgb_channel == old(self).dragging_rgb_channel,
            final(self).onion_skin == old(self).onion_skin,
            final(self).hover.top_action == spec_find_hit(old(self).areas.top_action_areas@, column, row),
            final(self).hover.tool_button == spec_rect_contains(old(self).areas.tool_button_area, column, row),
            final(self).hover.color_control == spec_find_hit(old(self).areas.color_control_areas@, column, row),
            final(self).hover.attr == spec_find_hit(old(self).areas.attr_button_areas@, column, row),
            final(self).hover.palette == match crate::editor::geometry::spec_hit_palette_item(
                old(self).areas.color_palette_area,
                COLOR_SLOT_WIDTH,
                column,
                row,
                palette_colors().len() as int,
            ) {
                Some(i) => Some(PaletteHover::Color(i as usize)),
                None => match crate::editor::geometry::spec_hit_palette_item(
                    old(self).areas.character_palette_area,
                    CHAR_SLOT_WIDTH,
                    column,
                    row,
                    palette_chars().len() as int,
                ) {
                    Some(i) => Some(PaletteHover::Character(i as usize)),
                    None => None,
                },
            },
            final(self).hover.canvas_cell == if final(self).hover.top_action is None && !final(self).hover.tool_button
                && !final(self).hover.brush_button && !final(self).hover.more_colors_button && !final(self).hover.rgb_button
                && final(self).hover.color_control is None && final(self).hover.attr is None
                && final(self).hover.selection_action is None {
                match crate::editor::tools::spec_canvas_cell(*old(self), column, row) {
                    Some(p) => Some((p.1, p.0)),
                    None => None,
                }
            } else {
                None
            },
            *final(self) == (AppState { hover: final(self).hover, ..*old(self) }),
    {
        self.hover.top_action = self.top_action_at(column, row);
        self.hover.tool_button = rect_contains(self.areas.tool_button_area, column, row);
        self.hover.brush_button = rect_contains(self.areas.brush_button_area, column, row);
        self.hover.more_colors_button = rect_contains(self.areas.more_colors_button_area, column, row);
        self.hover.rgb_button = rect_contains(self.areas.rgb_button_area, column, row);
        self.hover.color_control = self.color_control_at(column, row);
        self.hover.attr = self.attr_action_at(column, row);
        self.hover.selection_action = self.selection_action_at(column, row);
        self.hover.canvas_cell = if self.hover.top_action.is_none() && !self.hover.tool_button && !self.hover.brush_button
            && !self.hover.more_colors_button && !self.hover.rgb_button && self.hover.color_control.is_none()
            && self.hover.attr.is_none() && self.hover.selection_action.is_none() {
            match self.canvas_cell_at(column, row) {
                Some((x, y)) => Some((y, x)),
                None => None,
            }
        } else {
            None
        };
        let colors = color_palette();
        let chars = character_palette();
        self.hover.palette = match hit_palette_item(self.areas.color_palette_area, COLOR_SLOT_WIDTH, column, row, colors.len()) {
            Some(index) => Some(PaletteHover::Color(index)),
            None => match hit_palette_item(self.areas.character_palette_area, CHAR_SLOT_WIDTH, column, row, chars.len()) {
                Some(index) => Some(PaletteHover::Character(index)),
                None => None,
            },
        };
        self.hover.recent_color = hit_palette_item(
            self.areas.recent_color_palette_area,
            COLOR_SLOT_WIDTH,
            column,
            row,
            self.recent_extra_colors.len(),
        );
    }

    /// Records which welcome-screen button the mouse is over.
    pub fn update_welcome_hover(&mut self, column: u16, row: u16)
        ensures
            *final(self) == (AppState {
                hover: HoverState {
                    welcome_action: spec_find_hit(old(self).areas.welcome_action_areas@, column, row),
                    ..old(self).hover
                },
                ..*old(self)
            }),
    {
        self.hover.welcome_action = find_hit(&self.areas.welcome_action_areas, column, row);
    }

    /// Closes the dialog, forgets what the mouse was over in it, and shows
    /// `message`.
    pub fn close_modal(&mut self, message: String)
        ensures
            final(self).modal is None,
            final(self).hover.modal_action is None,
            final(self).hover.modal_tool is None,
            final(self).hover.modal_color is None,
            final(self).hover.rgb_control is None,
            final(self).dragging_rgb_channel is None,
            final(self).message@ == message@,
            final(self).project == old(self).project,
            final(self).eq_tools(*old(self)),
            final(self).eq_selection(*old(self)),
            final(self).dirty == old(self).dirty,
            final(self).should_quit == old(self).should_quit,
            final(self).current_frame_index == old(self).current_frame_index,
            final(self).undo_stack == old(self).undo_stack,
            final(self).redo_stack == old(self).redo_stack,
            final(self).active_stroke == old(self).active_stroke,
            final(self).screen == old(self).screen,
            final(self).file_path == old(self).file_path,
            final(self).areas == old(self).areas,
            final(self).recent_extra_colors == old(self).recent_extra_colors,
            final(self).color_target == old(self).color_target,
            *final(self) == (AppState {
                modal: None,
                hover: crate::editor::state::HoverState { modal_action: None, modal_tool: None, modal_color: None, rgb_control: None, ..old(self).hover },
                dragging_rgb_channel: None,
                message: final(self).message,
                ..*old(self)
            }),
    {
        self.modal = None;
        self.hover.modal_action = None;
        self.hover.modal_tool = None;
        self.hover.modal_color = None;
        self.hover.rgb_control = None;
        self.dragging_rgb_channel = None;
        self.message = message;
    }

    /// Opens the expanded color picker at its top.
    pub fn open_color_picker(&mut self)
        ensures
            final(self).modal matches Some(Modal::ColorPicker),
            final(self).color_picker_scroll_row == 0,
            final(self).hover.modal_color is None,
            final(self).message@ == "Choose a color"@,
            final(self).project == old(self).project,
            final(self).eq_tools(*old(self)),
            final(self).eq_selection(*old(self)),
            final(self).dirty == old(self).dirty,
            final(self).current_frame_index == old(self).current_frame_index,
            final(self).undo_stack == old(self).undo_stack,
            final(self).redo_stack == old(self).redo_stack,
            final(self).active_stroke == old(self).active_stroke,
            final(self).screen == old(self).screen,
            final(self).should_quit == old(self).should_quit,
            final(self).areas == old(self).areas,
            *final(self) == (AppState {
                modal: final(self).modal,
                color_picker_scroll_row: 0,
                hover: crate::editor::state::HoverState { modal_color: None, ..old(self).hover },
                message: final(self).message,
                ..*old(self)
            }),
    {
        self.modal = Some(Modal::ColorPicker);
        self.color_picker_scroll_row = 0;
        self.hover.modal_color = None;
        self.message = owned("Choose a color");
    }

    /// Opens the RGB dialog on the current target color.
    pub fn open_rgb_input(&mut self)
        requires
            old(self).wf(),
        ensures
            final(self).modal matches Some(Modal::RgbInput { color }) && color == old(self).spec_rgb_base(),
            final(self).hover.rgb_control is None,
            final(self).dragging_rgb_channel is None,
            final(self).message@ == "Adjust "@ + match old(self).color_target {
                ColorTarget::Foreground => "foreground"@,
                ColorTarget::Background => "background"@,
            } + " RGB with sliders"@,
            final(self).project == old(self).project,
            final(self).eq_tools(*old(self)),
            final(self).eq_selection(*old(self)),
            final(self).dirty == old(self).dirty,
            final(self).current_frame_index == old(self).current_frame_index,
            final(self).undo_stack == old(self).undo_stack,
            final(self).redo_stack == old(self).redo_stack,
            final(self).active_stroke == old(self).active_stroke,
            final(self).screen == old(self).screen,
            final(self).should_quit == old(self).should_quit,
            final(self).areas == old(self).areas,
            final(self).color_target == old(self).color_target,
            *final(self) == (AppState {
                modal: final(self).modal,
                hover: crate::editor::state::HoverState { rgb_control: None, ..old(self).hover },
                dragging_rgb_channel: None,
                message: final(self).message,
                ..*old(self)
            }),
    {
        let color = self.rgb_input_base_color();
        self.modal = Some(Modal::RgbInput { color });
        self.hover.rgb_control = None;
        self.dragging_rgb_channel = None;
        let mut m = owned("Adjust ");
        push_str(&mut m, self.color_target.lower_label());
        push_str(&mut m, " RGB with sliders");
        self.message = m;
    }

    /// The color the RGB dialog starts from.
    pub open spec fn spec_rgb_base(&self) -> Color {
        match self.color_target {
            ColorTarget::Foreground => self.project.styles@[self.current_style as int].fg,
            ColorTarget::Background => match self.project.styles@[self.current_style as int].bg {
                Some(c) => c,
                None => Color { r: 0, g: 0, b: 0 },
            },
        }
    }

    /// The rectangle of the color picker's grid inside the dialog.
    pub fn color_picker_grid_area(&self) -> (r: ScreenRect)
        requires
            self.areas.modal_area.y + self.areas.modal_area.height <= u16::MAX,
        ensures
            r == picker_grid(self.areas.modal_area),
    {
        let a = self.areas.modal_area;
        if a.width < 4 || a.height < 7 {
            return ScreenRect::empty();
        }
        let width = if a.width - 4 < 48 { a.width - 4 } else { 48 };
        ScreenRect { x: a.x.saturating_add((a.width - width) / 2), y: a.y + 3, width, height: a.height - 6 }
    }

    /// How many color columns the picker shows, from one to twelve.
    pub fn color_picker_columns(&self) -> (r: u16)
        requires
            self.areas.modal_area.y + self.areas.modal_area.height <= u16::MAX,
        ensures
            1 <= r <= EXPANDED_COLOR_COLUMNS,
            r == picker_columns(self.areas.modal_area),
    {
        let c = crate::editor::geometry::palette_columns(self.color_picker_grid_area().width, COLOR_SLOT_WIDTH);
        if c < 1 {
            1
        } else if c > EXPANDED_COLOR_COLUMNS {
            EXPANDED_COLOR_COLUMNS
        } else {
            c
        }
    }

    /// How many color rows the picker shows.
    pub fn color_picker_visible_rows(&self) -> (r: u16)
        requires
            self.areas.modal_area.y + self.areas.modal_area.height <= u16::MAX,
        ensures
            r == picker_rows(self.areas.modal_area),
    {
        self.color_picker_grid_area().height
    }

    /// How many rows all the picker's colors take.
    pub fn color_picker_total_rows(&self) -> (r: usize)
        requires
            self.areas.modal_area.y + self.areas.modal_area.height <= u16::MAX,
        ensures
            r == picker_total_rows(self.areas.modal_area),
    {
        let c = self.color_picker_columns() as usize;
        (MORE_COLOR_COUNT + c - 1) / c
    }

    /// Scrolls the color picker by `delta_rows`, staying within its rows.
    pub fn scroll_color_picker(&mut self, delta_rows: isize)
        requires
            old(self).areas.modal_area.y + old(self).areas.modal_area.height <= u16::MAX,
        ensures
            delta_rows < 0 ==> final(self).color_picker_scroll_row == if old(self).color_picker_scroll_row + delta_rows >= 0 {
                (old(self).color_picker_scroll_row + delta_rows) as usize
            } else {
                0usize
            },
            delta_rows >= 0 ==> final(self).color_picker_scroll_row == if old(self).color_picker_scroll_row + delta_rows
                < picker_max_scroll(old(self).areas.modal_area) {
                old(self).color_picker_scroll_row + delta_rows
            } else {
                picker_max_scroll(old(self).areas.modal_area)
            },
            final(self).eq_except_picker_row(*old(self)),
            final(self).project == old(self).project,
            final(self).modal == old(self).modal,
            final(self).message == old(self).message,
            final(self).areas == old(self).areas,
    {
        let columns = self.color_picker_columns();
        let visible = self.color_picker_visible_rows();
        let visible_rows: usize = if visible < 1 { 1 } else { visible as usize };
        let c = columns as usize;
        let total_rows = (MORE_COLOR_COUNT + c - 1) / c;
        let max_scroll = total_rows.saturating_sub(visible_rows);
        let current = self.color_picker_scroll_row;
        if delta_rows < 0 {
            let magnitude: usize = if delta_rows == isize::MIN { (isize::MAX as usize) + 1 } else { (-delta_rows) as usize };
            self.color_picker_scroll_row = current.saturating_sub(magnitude);
        } else {
            let moved = current.saturating_add(delta_rows as usize);
            self.color_picker_scroll_row = if moved < max_scroll { moved } else { max_scroll };
        }
    }

    /// Opens the export format menu.
    pub fn open_export_menu(&mut self)
        ensures
            final(self).modal matches Some(Modal::ExportMenu),
            final(self).message@ == "Choose export format"@,
            final(self).project == old(self).project,
            final(self).eq_tools(*old(self)),
            final(self).eq_selection(*old(self)),
            final(self).dirty == old(self).dirty,
            final(self).current_frame_index == old(self).current_frame_index,
            final(self).undo_stack == old(self).undo_stack,
            final(self).redo_stack == old(self).redo_stack,
            final(self).active_stroke == old(self).active_stroke,
            final(self).should_quit == old(self).should_quit,
            final(self).areas == old(self).areas,
            final(self).hover == old(self).hover,
            final(self).dragging_rgb_channel == old(self).dragging_rgb_channel,
            *final(self) == (AppState { modal: final(self).modal, message: final(self).message, ..*old(self) }),
    {
        self.modal = Some(Modal::ExportMenu);
        self.message = owned("Choose export format");
    }

    /// Opens the text export dialog on a default path: the document's path
    /// with a `.txt` extension, or `terminal-art.txt`.
    pub fn open_export_text(&mut self)
        ensures
            final(self).modal matches Some(Modal::ExportText { input }) && (old(self).file_path is None ==> input@
                == "terminal-art.txt"@),
            final(self).project == old(self).project,
            final(self).message == old(self).message,
            final(self).eq_tools(*old(self)),
            final(self).eq_selection(*old(self)),
            final(self).dirty == old(self).dirty,
            final(self).current_frame_index == old(self).current_frame_index,
            final(self).undo_stack == old(self).undo_stack,
            final(self).redo_stack == old(self).redo_stack,
            final(self).active_stroke == old(self).active_stroke,
            final(self).should_quit == old(self).should_quit,
            final(self).areas == old(self).areas,
            final(self).hover == old(self).hover,
            final(self).dragging_rgb_channel == old(self).dragging_rgb_channel,
            *final(self) == (AppState { modal: final(self).modal, ..*old(self) }),
    {
        let input = match &self.file_path {
            Some(path) => default_text_export_path(path.as_str()),
            None => owned("terminal-art.txt"),
        };
        self.modal = Some(Modal::ExportText { input });
    }

    /// Opens the ANSI export dialog on a default path: the document's path
    /// with an `.ansi` extension, or `terminal-art.ansi`.
    pub fn open_export_ansi(&mut self)
        ensures
            final(self).modal matches Some(Modal::ExportAnsi { input }) && (old(self).file_path is None ==> input@
                == "terminal-art.ansi"@),
            final(self).project == old(self).project,
            final(self).message == old(self).message,
            final(self).eq_tools(*old(self)),
            final(self).eq_selection(*old(self)),
            final(self).dirty == old(self).dirty,
            final(self).current_frame_index == old(self).current_frame_index,
            final(self).undo_stack == old(self).undo_stack,
            final(self).redo_stack == old(self).redo_stack,
            final(self).active_stroke == old(self).active_stroke,
            final(self).should_quit == old(self).should_quit,
            final(self).areas == old(self).areas,
            final(self).hover == old(self).hover,
            final(self).dragging_rgb_channel == old(self).dragging_rgb_channel,
            *final(self) == (AppState { modal: final(self).modal, ..*old(self) }),
    {
        let input = match &self.file_path {
            Some(path) => default_ansi_export_path(path.as_str()),
            None => owned("terminal-art.ansi"),
        };
        self.modal = Some(Modal::ExportAnsi { input });
    }

    /// Opens the Save As dialog on the document's path, or
    /// `untitled.tanim.toml`.
    pub fn open_save_as(&mut self)
        ensures
            final(self).modal matches Some(Modal::SaveAs { input }) && match old(self).file_path {
                Some(p) => input@ == p@,
                None => input@ == "untitled.tanim.toml"@,
            },
            final(self).project == old(self).project,
            final(self).message == old(self).message,
            final(self).eq_tools(*old(self)),
            final(self).eq_selection(*old(self)),
            final(self).dirty == old(self).dirty,
            final(self).file_path == old(self).file_path,
            final(self).current_frame_index == old(self).current_frame_index,
            final(self).undo_stack == old(self).undo_stack,
            final(self).redo_stack == old(self).redo_stack,
            final(self).active_stroke == old(self).active_stroke,
            final(self).should_quit == old(self).should_quit,
            final(self).areas == old(self).areas,
            final(self).hover == old(self).hover,
            final(self).dragging_rgb_channel == old(self).dragging_rgb_channel,
            *final(self) == (AppState { modal: final(self).modal, ..*old(self) }),
    {
        let input = match &self.file_path {
            Some(path) => owned(path.as_str()),
            None => owned("untitled.tanim.toml"),
        };
        self.modal = Some(Modal::SaveAs { input });
    }

    /// Saves to the document's path, or asks for one.
    pub fn save(&mut self, quit_after: bool) -> (r: Request)
        ensures
            match old(self).file_path {
                Some(p) => r matches Request::Save { path, quit_after: q } && path@ == p@ && q == quit_after
                    && *final(self) == *old(self),
                None => r is Nothing && (final(self).modal matches Some(Modal::SaveAs { input }) && input@
                    == "untitled.tanim.toml"@),
            },
            final(self).project == old(self).project,
            final(self).dirty == old(self).dirty,
            final(self).should_quit == old(self).should_quit,
            final(self).eq_tools(*old(self)),
            final(self).eq_selection(*old(self)),
            final(self).current_frame_index == old(self).current_frame_index,
            final(self).undo_stack == old(self).undo_stack,
            final(self).redo_stack == old(self).redo_stack,
            final(self).active_stroke == old(self).active_stroke,
            final(self).areas == old(self).areas,
    {
        match &self.file_path {
            Some(path) => Request::Save { path: owned(path.as_str()), quit_after },
            None => {
                self.open_save_as();
                Request::Nothing
            },
        }
    }

    /// Quits at once when nothing is unsaved, else asks first.
    pub fn request_quit(&mut self)
        ensures
            old(self).dirty ==> (final(self).modal matches Some(Modal::QuitConfirm)),
            !old(self).dirty ==> final(self).should_quit && final(self).modal == old(self).modal,
            final(self).project == old(self).project,
            final(self).message == old(self).message,
            final(self).dirty == old(self).dirty,
            final(self).eq_tools(*old(self)),
            final(self).eq_selection(*old(self)),
            final(self).current_frame_index == old(self).current_frame_index,
            final(self).undo_stack == old(self).undo_stack,
            final(self).redo_stack == old(self).redo_stack,
            final(self).active_stroke == old(self).active_stroke,
            final(self).areas == old(self).areas,
            old(self).dirty ==> final(self).should_quit == old(self).should_quit,
            *final(self) == (AppState { modal: final(self).modal, should_quit: final(self).should_quit, ..*old(self) }),
    {
        if self.dirty {
            self.modal = Some(Modal::QuitConfirm);
        } else {
            self.should_quit = true;
        }
    }

    /// Records how a save to `path` went: a success clears the unsaved mark
    /// (and quits when asked to), a failure says why.
    pub fn finish_save(&mut self, path: &str, outcome: Result<usize, FormatError>, quit_after: bool)
        ensures
            final(self).project == old(self).project,
            final(self).modal == old(self).modal,
            match outcome {
                Ok(n) => {
                    &&& !final(self).dirty
                    &&& final(self).should_quit == (quit_after || old(self).should_quit)
                    &&& final(self).message@ == if n == 0 {
                        "Saved "@ + path@
                    } else {
                        "Saved "@ + path@ + " with "@ + decimal_text(n as nat) + " warning(s)"@
                    }
                },
                Err(e) => {
                    &&& final(self).dirty == old(self).dirty
                    &&& final(self).should_quit == old(self).should_quit
                    &&& (e matches FormatError::Validation(report) ==> final(self).message@ == save_blocked_text(report))
                    &&& (!(e is Validation) ==> "Save failed: "@.is_prefix_of(final(self).message@))
                },
            },
            final(self).eq_tools(*old(self)),
            final(self).eq_selection(*old(self)),
            final(self).current_frame_index == old(self).current_frame_index,
            final(self).undo_stack == old(self).undo_stack,
            final(self).redo_stack == old(self).redo_stack,
            final(self).active_stroke == old(self).active_stroke,
            final(self).areas == old(self).areas,
            final(self).file_path == old(self).file_path,
            final(self).screen == old(self).screen,
    {
        match outcome {
            Ok(count) => {
                self.dirty = false;
                let mut m = owned("Saved ");
                push_str(&mut m, path);
                if count != 0 {
                    push_str(&mut m, " with ");
                    push_str(&mut m, decimal_string(count as u64).as_str());
                    push_str(&mut m, " warning(s)");
                }
                self.message = m;
                if quit_after {
                    self.should_quit = true;
                }
            },
            Err(error) => {
                self.message = format_save_error(error);
            },
        }
    }

    /// Records whether the Save As target exists: an existing file needs a
    /// confirmation first, otherwise it becomes the document's path and is
    /// saved.
    pub fn finish_save_target(&mut self, path: String, exists: bool) -> (r: Request)
        ensures
            exists ==> r is Nothing && (final(self).modal matches Some(Modal::OverwriteConfirm { path: p }) && p == path)
                && final(self).message@ == "Confirm overwrite "@ + path@ && final(self).file_path == old(self).file_path,
            !exists ==> final(self).file_path == Some(path) && (r matches Request::Save { path: p, quit_after } && p@
                == path@ && !quit_after),
            final(self).project == old(self).project,
            final(self).dirty == old(self).dirty,
            final(self).should_quit == old(self).should_quit,
    {
        if exists {
            let mut m = owned("Confirm overwrite ");
            push_str(&mut m, path.as_str());
            self.message = m;
            self.modal = Some(Modal::OverwriteConfirm { path });
            return Request::Nothing;
        }
        self.file_path = Some(path);
        self.save(false)
    }

    /// Records how a file export to `path` went.
    pub fn finish_export(&mut self, path: &str, outcome: Result<(), String>, ansi: bool)
        ensures
            final(self).message@ == match outcome {
                Ok(()) => if ansi { "Exported ANSI "@ + path@ } else { "Exported "@ + path@ },
                Err(e) => "Export failed: "@ + e@,
            },
            final(self).eq_except_message(*old(self)),
    {
        match outcome {
            Ok(()) => {
                let mut m = owned(if ansi { "Exported ANSI " } else { "Exported " });
                push_str(&mut m, path);
                self.message = m;
            },
            Err(e) => {
                let mut m = owned("Export failed: ");
                push_str(&mut m, e.as_str());
                self.message = m;
            },
        }
    }

    /// Records what opening `path` found: a loaded document replaces the
    /// editor's state; a missing file asks for the size of a new one; a
    /// failure says why.
    pub fn finish_open(&mut self, path: String, outcome: OpenOutcome)
        requires
            outcome matches OpenOutcome::Loaded(l) ==> editable(l.project),
        ensures
            final(self).wf() || !(outcome is Loaded),
            old(self).wf() ==> final(self).wf(),
            !(outcome is Loaded) ==> *final(self) == (AppState {
                modal: final(self).modal,
                message: final(self).message,
                ..*old(self)
            }),
            match outcome {
                OpenOutcome::Loaded(l) => {
                    &&& final(self).project == l.project
                    &&& final(self).file_path == Some(path)
                    &&& final(self).screen == Screen::Editor
                    &&& !final(self).dirty
                    &&& final(self).message@ == "Opened file with "@ + decimal_text(l.warnings@.len()) + " warning(s)"@
                },
                OpenOutcome::Missing => {
                    &&& final(self).modal matches Some(Modal::NewImage { input, target_path }) && input@ == "48x16"@
                        && target_path == Some(path)
                    &&& final(self).message@ == "File does not exist. Enter dimensions to create it."@
                    &&& final(self).project == old(self).project
                },
                OpenOutcome::Failed(e) => {
                    &&& final(self).modal == old(self).modal
                    &&& "Open failed: "@.is_prefix_of(final(self).message@)
                    &&& (e matches FormatError::Validation(report) ==> final(self).message@ == "Open failed: "@
                        + validation_summary(report))
                },
            },
    {
        match outcome {
            OpenOutcome::Loaded(loaded) => {
                let mut m = owned("Opened file with ");
                push_str(&mut m, decimal_string(loaded.warnings.len() as u64).as_str());
                push_str(&mut m, " warning(s)");
                *self = AppState::editor(loaded.project, Some(path), false, m);
            },
            OpenOutcome::Missing => {
                self.modal = Some(Modal::NewImage { input: owned("48x16"), target_path: Some(path) });
                self.message = owned("File does not exist. Enter dimensions to create it.");
            },
            OpenOutcome::Failed(error) => {
                let mut m = owned("Open failed: ");
                push_str(&mut m, error.describe().as_str());
                self.message = m;
            },
        }
    }

    /// Picks an expanded-picker color as a custom color and closes the
    /// picker.
    pub fn pick_expanded_color(&mut self, color: Color)
        requires
            old(self).wf(),
        ensures
            final(self).wf(),
            final(self).modal is None,
            final(self).message@ == "Selected "@ + spec_to_hex(color),
            final(self).tool == Tool::Pencil,
    {
        self.select_custom_color(color, true);
        let mut m = owned("Selected ");
        push_str(&mut m, color.to_hex().as_str());
        self.close_modal(m);
    }

    /// Steps a channel of the RGB dialog's color by `delta`, kept within
    /// `0..=255`.
    pub fn adjust_rgb_channel(&mut self, channel: RgbChannel, delta: i16)
        requires
            old(self).wf(),
        ensures
            final(self).wf(),
            rgb_stepped(*old(self), channel, delta as int, *final(self)),
    {
        match &mut self.modal {
            Some(Modal::RgbInput { color }) => {
                let current = channel.value(*color) as i32;
                let v = current + (delta as i32);
                let nv: u8 = if v < 0 {
                    0
                } else if v > 255 {
                    255
                } else {
                    v as u8
                };
                channel.set_value(color, nv);
                let hex = color.to_hex();
                let mut m = owned("RGB preview ");
                push_str(&mut m, hex.as_str());
                self.message = m;
            },
            _ => {},
        }
    }

    /// Sets a channel of the RGB dialog's color from the slider column under
    /// the mouse, when that slider was drawn.
    pub fn set_rgb_channel_from_slider(&mut self, channel: RgbChannel, column: u16)
        requires
            old(self).wf(),
        ensures
            final(self).wf(),
            slider_moved(*old(self), channel, column, *final(self)),
    {
        let mut area: Option<ScreenRect> = None;
        let mut i: usize = 0;
        let ghost hits = self.areas.modal_rgb_areas@;
        proof {
            assert(hits.skip(0) =~= hits);
        }
        while i < self.areas.modal_rgb_areas.len()
            invariant_except_break
                area is None,
            invariant
                i <= hits.len(),
                hits == self.areas.modal_rgb_areas@,
                first_slider(hits, channel) == first_slider(hits.skip(i as int), channel),
            ensures
                area == first_slider(hits, channel),
            decreases self.areas.modal_rgb_areas.len() - i,
        {
            let hit = self.areas.modal_rgb_areas[i];
            proof {
                assert(hits.skip(i as int)[0] == hits[i as int]);
                assert(hits.skip(i as int).drop_first() =~= hits.skip(i + 1));
            }
            let is_slider = match hit.action {
                RgbControl::Slider(c) => c == channel,
                _ => false,
            };
            if is_slider {
                area = Some(hit.area);
                break;
            }
            i += 1;
        }

        let area = match area {
            Some(a) => a,
            None => {
                return;
            },
        };
        let value = rgb_slider_value_at(area, column);
        match &mut self.modal {
            Some(Modal::RgbInput { color }) => {
                channel.set_value(color, value);
                let hex = color.to_hex();
                let mut m = owned("RGB preview ");
                push_str(&mut m, hex.as_str());
                self.message = m;
            },
            _ => {},
        }
    }

    /// Applies an RGB dialog control clicked at `column`: a step down or
    /// up, or a slider, which starts a drag.
    pub fn apply_rgb_control(&mut self, control: RgbControl, column: u16)
        requires
            old(self).wf(),
        ensures
            final(self).wf(),
            final(self).project == old(self).project,
            match control {
                RgbControl::Slider(c) => slider_moved(
                    AppState { dragging_rgb_channel: Some(c), ..*old(self) },
                    c,
                    column,
                    *final(self),
                ),
                RgbControl::Decrement(c) => rgb_stepped(*old(self), c, -1, *final(self)),
                RgbControl::Increment(c) => rgb_stepped(*old(self), c, 1, *final(self)),
            },
    {
        match control {
            RgbControl::Decrement(channel) => {
                self.adjust_rgb_channel(channel, -1);
            },
            RgbControl::Increment(channel) => {
                self.adjust_rgb_channel(channel, 1);
            },
            RgbControl::Slider(channel) => {
                self.dragging_rgb_channel = Some(channel);
                self.set_rgb_channel_from_slider(channel, column);
            },
        }
    }

    /// Runs a selection button.
    pub fn run_selection_action(&mut self, action: SelectionAction)
        requires
            old(self).wf(),
        ensures
            final(self).wf(),
            selection_action_done(*old(self), action, *final(self)),
    {
        match action {
            SelectionAction::Copy => {
                self.copy_selection_to_stamp();
            },
            SelectionAction::Cut => {
                self.cut_selection_to_stamp();
            },
            SelectionAction::Delete => {
                self.delete_selection();
            },
            SelectionAction::Stamp => {
                self.save_selection_as_stamp();
            },
            SelectionAction::Clear => {
                self.clear_selection();
            },
        }
    }

    /// Runs a color control: choose which color palette picks edit, or make
    /// the background transparent (keeping foreground and attributes).
    pub fn run_color_control(&mut self, control: ColorControl)
        requires
            old(self).wf(),
        ensures
            final(self).wf(),
            color_control_done(*old(self), *final(self), control),
    {
        match control {
            ColorControl::Target(target) => {
                self.color_target = target;
                let mut m = owned("Palette edits ");
                push_str(&mut m, target.lower_label());
                self.message = m;
            },
            ColorControl::TransparentBackground => {
                let ghost before = *self;
                let current = &self.project.styles[self.current_style];
                let fg = current.fg;
                let attrs = crate::editor::styles::copy_attrs(&current.attrs);
                self.color_target = ColorTarget::Background;
                let ghost mid = *self;
                let r = self.select_style_variant(fg, None, attrs, "Background transparent");
                proof {
                    assert(mid == crate::editor::styles::with_target(before, ColorTarget::Background));
                }
            },
        }
    }

    /// Handles a click on the sidebar: color controls, selection buttons,
    /// attribute toggles, palette colors, recent colors and palette
    /// characters, in that order; says whether something was hit.
    pub fn apply_palette_click(&mut self, column: u16, row: u16) -> (r: bool)
        requires
            old(self).wf(),
        ensures
            final(self).wf(),
            palette_click_done(*old(self), column, row, *final(self), r),
    {
        let ghost before = *self;
        match self.color_control_at(column, row) {
            Some(control) => {
                self.run_color_control(control);
                return true;
            },
            None => {},
        }
        match self.selection_action_at(column, row) {
            Some(action) => {
                self.run_selection_action(action);
                return true;
            },
            None => {},
        }
        match self.attr_action_at(column, row) {
            Some(attr) => {
                self.toggle_current_attr(attr);
                return true;
            },
            None => {},
        }
        let colors = color_palette();
        match hit_palette_item(self.areas.color_palette_area, COLOR_SLOT_WIDTH, column, row, colors.len()) {
            Some(index) => {
                self.select_palette_color(colors[index]);
                return true;
            },
            None => {},
        }
        match hit_palette_item(
            self.areas.recent_color_palette_area,
            COLOR_SLOT_WIDTH,
            column,
            row,
            self.recent_extra_colors.len(),
        ) {
            Some(index) => {
                let color = self.recent_extra_colors[index];
                self.select_custom_color(color, false);
                let mut m = owned("Selected recent ");
                push_str(&mut m, color.to_hex().as_str());
                let ghost mid = *self;
                self.message = m;
                proof {
                    assert(with_message(*self, mid.message) == mid);
                }
                return true;
            },
            None => {},
        }
        let chars = character_palette();
        match hit_palette_item(self.areas.character_palette_area, CHAR_SLOT_WIDTH, column, row, chars.len()) {
            Some(index) => {
                self.brush_char = chars[index];
                self.tool = Tool::Pencil;
                let mut m = owned("Brush character set to ");
                push_str(&mut m, crate::text::char_debug_string(self.brush_char).as_str());
                self.message = m;
                return true;
            },
            None => {},
        }
        false
    }

    /// The status line: the cell under the mouse and what it holds, or the
    /// brush, style and tool.
    pub fn canvas_status(&self) -> (r: String)
        requires
            self.wf(),
        ensures
            match self.hover.canvas_cell {
                None => r@ == "Brush "@ + crate::editor::palette::spec_brush_label(self.brush_char) + " with "@
                    + self.project.styles@[self.current_style as int].id@ + " | "@ + crate::editor::controls::tool_description(
                    self.tool,
                ),
                Some(k) => match crate::editor::history::opt_cell(self.cells(), k) {
                    Some(c) => r@ == "Cell "@ + decimal_text(k.1 as nat) + ","@ + decimal_text(k.0 as nat) + ": "@
                        + crate::editor::palette::spec_brush_label(c.ch) + " using "@
                        + self.project.styles@[c.style_index as int].id@,
                    None => r@ == "Cell "@ + decimal_text(k.1 as nat) + ","@ + decimal_text(k.0 as nat) + ": transparent"@,
                },
            },
    {
        match self.hover.canvas_cell {
            None => {
                let mut m = owned("Brush ");
                push_str(&mut m, brush_label(self.brush_char).as_str());
                push_str(&mut m, " with ");
                push_str(&mut m, self.project.styles[self.current_style].id.as_str());
                push_str(&mut m, " | ");
                push_str(&mut m, self.tool.description());
                m
            },
            Some((y, x)) => {
                let mut m = owned("Cell ");
                push_str(&mut m, decimal_string(x as u64).as_str());
                push_str(&mut m, ",");
                push_str(&mut m, decimal_string(y as u64).as_str());
                match self.cell_at((y, x)) {
                    Some(cell) => {
                        proof {
                            assert(self.cells().contains_key((y, x)));
                        }
                        push_str(&mut m, ": ");
                        push_str(&mut m, brush_label(cell.ch).as_str());
                        push_str(&mut m, " using ");
                        push_str(&mut m, self.project.styles[cell.style_index].id.as_str());
                    },
                    None => {
                        push_str(&mut m, ": transparent");
                    },
                }
                m
            },
        }
    }
}

} // verus!
