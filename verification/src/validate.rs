use std::collections::BTreeMap;
use vstd::prelude::*;
use vstd::std_specs::iter::IteratorSpec;

use crate::error::FormatError;
use crate::model::{
    anchor_from_name, attr_from_name, overflow_from_name, spec_parse_hex, Anchor, Color, Layout,
    Overflow, TerminalStyle, TextAttr, ValidationMessage, ValidationReport, MAX_STYLES, CellKey,
    CellMap, Frame, PaintedCell, painted, MAX_EXPANDED_CELLS_ALL_FRAMES, MAX_EXPLICIT_CELLS_PER_FRAME,
    MAX_RUNS_PER_FRAME, MAX_FRAMES, kind_from_name, Asset, AssetKind, LoadedProject, Project,
    MAX_AREA_PER_FRAME, MAX_HEIGHT, MAX_WIDTH, SCHEMA_VERSION,
};
use crate::raw::{RawCell, RawFrame, RawLayout, RawProject, RawRun, RawStyle};
use crate::text::{
    char_debug_text, chars_equal, chars_of, decimal_string, decimal_text, is_blank, owned, push_str, str_debug_string,
    str_debug_text, trim_chars,
};
use crate::unicode::{is_valid_v1_character, spec_is_valid_v1_character};

verus! {

broadcast use vstd::laws_cmp::group_laws_cmp, vstd::std_specs::btree::group_btree_axioms;

// ---------------------------------------------------------------------------
// Messages

/// A validation message at `location`.
pub fn message(location: String, text: String) -> (r: ValidationMessage)
    ensures
        r.location == location,
        r.message == text,
{
    ValidationMessage { location, message: text }
}

/// `prefix[index]`.
fn indexed(prefix: &str, index: usize) -> (r: String)
    ensures
        r@ == prefix@ + "["@ + decimal_text(index as nat) + "]"@,
{
    let mut s = owned(prefix);
    push_str(&mut s, "[");
    let n = decimal_string(index as u64);
    push_str(&mut s, n.as_str());
    push_str(&mut s, "]");
    s
}

/// `base.field[index]`.
fn sub_indexed(base: &String, field: &str, index: usize) -> (r: String)
    ensures
        r@ == base@ + "."@ + field@ + "["@ + decimal_text(index as nat) + "]"@,
{
    let mut s = base.clone();
    push_str(&mut s, ".");
    let tail = indexed(field, index);
    push_str(&mut s, tail.as_str());
    proof {
        assert(s@ == base@ + "."@ + (field@ + "["@ + decimal_text(index as nat) + "]"@));
    }
    s
}

/// `base.field`.
fn sub_field(base: &String, field: &str) -> (r: String)
    ensures
        r@ == base@ + "."@ + field@,
{
    let mut s = base.clone();
    push_str(&mut s, ".");
    push_str(&mut s, field);
    s
}

/// `prefix` followed by the decimal form of `n` and `suffix`.
fn with_number(prefix: &str, n: u64, suffix: &str) -> (r: String)
    ensures
        r@ == prefix@ + decimal_text(n as nat) + suffix@,
{
    let mut s = owned(prefix);
    let digits = decimal_string(n);
    push_str(&mut s, digits.as_str());
    push_str(&mut s, suffix);
    s
}

/// `prefix` followed by the decimal forms of two numbers.
fn with_two_numbers(prefix: &str, n: u64, middle: &str, m: u64) -> (r: String)
    ensures
        r@ == prefix@ + decimal_text(n as nat) + middle@ + decimal_text(m as nat),
{
    let mut s = with_number(prefix, n, middle);
    let digits = decimal_string(m);
    push_str(&mut s, digits.as_str());
    s
}

/// The messages of `o` are still the first messages of `f`.
pub open spec fn kept(o: Seq<ValidationMessage>, f: Seq<ValidationMessage>) -> bool {
    &&& o.len() <= f.len()
    &&& forall|i: int| 0 <= i < o.len() ==> #[trigger] f[i] == o[i]
}

/// `s` holds a message at `location` saying `message`.
pub open spec fn has_error(s: Seq<ValidationMessage>, location: Seq<char>, message: Seq<char>) -> bool {
    exists|i: int| 0 <= i < s.len() && (#[trigger] s[i]).location@ == location && s[i].message@ == message
}

/// A message stays where it was when messages are only added.
pub proof fn lemma_kept_has(o: Seq<ValidationMessage>, f: Seq<ValidationMessage>, location: Seq<char>, message: Seq<char>)
    requires
        kept(o, f),
        has_error(o, location, message),
    ensures
        has_error(f, location, message),
{
    let i = choose|i: int| 0 <= i < o.len() && (#[trigger] o[i]).location@ == location && o[i].message@ == message;
    assert(f[i] == o[i]);
}

/// Where a style's foreground is reported.
pub open spec fn fg_location(k: int) -> Seq<char> {
    "styles"@ + "["@ + decimal_text(k as nat) + "]"@ + "."@ + "fg"@
}

/// Each of the first `n` styles with a transparent foreground is reported
/// in `s`.
pub open spec fn fg_errors(styles: Seq<RawStyle>, n: int, s: Seq<ValidationMessage>) -> bool {
    forall|k: int|
        0 <= k < n && (#[trigger] styles[k]).fg@ == "transparent"@ ==> has_error(
            s,
            fg_location(k),
            "foreground transparency is not valid in V1"@,
        )
}

/// Where style `k` is reported.
pub open spec fn style_location(k: int) -> Seq<char> {
    "styles"@ + "["@ + decimal_text(k as nat) + "]"@
}

/// What the report says of a style attribute it does not know.
pub open spec fn attr_message(name: Seq<char>) -> Seq<char> {
    "invalid style attribute "@ + str_debug_text(name)
}

/// The problems of style `k`, which comes after `earlier`, are in `s`: a
/// blank ID, an ID an earlier style has, a foreground that is not
/// `#RRGGBB`, a background that is neither `transparent` nor `#RRGGBB`,
/// and each unknown attribute.
pub open spec fn style_reported(k: int, st: RawStyle, earlier: Seq<RawStyle>, s: Seq<ValidationMessage>) -> bool {
    let loc = style_location(k);
    &&& is_blank(st.id@) ==> has_error(s, loc + "."@ + "id"@, "style ID cannot be empty"@)
    &&& (exists|j: int| 0 <= j < earlier.len() && (#[trigger] earlier[j]).id@ == st.id@) ==> has_error(
        s,
        loc + "."@ + "id"@,
        "duplicate style ID"@,
    )
    &&& st.fg@ != "transparent"@ && spec_parse_hex(st.fg@) is None ==> has_error(s, loc + "."@ + "fg"@, "invalid #RRGGBB color"@)
    &&& !bg_ok(st.bg) ==> has_error(s, loc + "."@ + "bg"@, "invalid background color"@)
    &&& forall|m: int|
        0 <= m < st.attrs@.len() && (#[trigger] attr_from_name(st.attrs@[m]@)) is None ==> has_error(
            s,
            loc + "."@ + "attrs"@,
            attr_message(st.attrs@[m]@),
        )
}

/// Each of the first `n` styles has its problems reported in `s`.
pub open spec fn styles_reported(styles: Seq<RawStyle>, n: int, s: Seq<ValidationMessage>) -> bool {
    forall|k: int| 0 <= k < n ==> style_reported(k, #[trigger] styles[k], styles.take(k), s)
}

/// A style's reports stay when messages are only added.
proof fn lemma_style_reported_kept(k: int, st: RawStyle, earlier: Seq<RawStyle>, o: Seq<ValidationMessage>, f: Seq<ValidationMessage>)
    requires
        kept(o, f),
        style_reported(k, st, earlier, o),
    ensures
        style_reported(k, st, earlier, f),
{
    let loc = style_location(k);
    if is_blank(st.id@) {
        lemma_kept_has(o, f, loc + "."@ + "id"@, "style ID cannot be empty"@);
    }
    if exists|j: int| 0 <= j < earlier.len() && (#[trigger] earlier[j]).id@ == st.id@ {
        lemma_kept_has(o, f, loc + "."@ + "id"@, "duplicate style ID"@);
    }
    if st.fg@ != "transparent"@ && spec_parse_hex(st.fg@) is None {
        lemma_kept_has(o, f, loc + "."@ + "fg"@, "invalid #RRGGBB color"@);
    }
    if !bg_ok(st.bg) {
        lemma_kept_has(o, f, loc + "."@ + "bg"@, "invalid background color"@);
    }
    assert forall|m: int| 0 <= m < st.attrs@.len() && (#[trigger] attr_from_name(st.attrs@[m]@)) is None implies has_error(
        f,
        loc + "."@ + "attrs"@,
        attr_message(st.attrs@[m]@),
    ) by {
        lemma_kept_has(o, f, loc + "."@ + "attrs"@, attr_message(st.attrs@[m]@));
    }
}

/// Style reports stay when messages are only added.
proof fn lemma_styles_reported_kept(styles: Seq<RawStyle>, n: int, o: Seq<ValidationMessage>, f: Seq<ValidationMessage>)
    requires
        kept(o, f),
        styles_reported(styles, n, o),
    ensures
        styles_reported(styles, n, f),
{
    assert forall|k: int| 0 <= k < n implies style_reported(k, #[trigger] styles[k], styles.take(k), f) by {
        lemma_style_reported_kept(k, styles[k], styles.take(k), o, f);
    }
}

/// What the report says of too many styles.
pub open spec fn style_count_message(n: nat) -> Seq<char> {
    "style count "@ + decimal_text(n) + " exceeds maximum "@ + decimal_text(MAX_STYLES as nat)
}

/// Reports of transparent foregrounds stay when messages are only added.
proof fn lemma_fg_errors_kept(styles: Seq<RawStyle>, n: int, o: Seq<ValidationMessage>, f: Seq<ValidationMessage>)
    requires
        kept(o, f),
        fg_errors(styles, n, o),
    ensures
        fg_errors(styles, n, f),
{
    assert forall|k: int| 0 <= k < n && (#[trigger] styles[k]).fg@ == "transparent"@ implies has_error(
        f,
        fg_location(k),
        "foreground transparency is not valid in V1"@,
    ) by {
        lemma_kept_has(o, f, fg_location(k), "foreground transparency is not valid in V1"@);
    }
}

/// What the report says of a size that is not a positive `u16` within `max`.
pub open spec fn positive_u16_message(value: i64, max: Option<u16>) -> Seq<char> {
    if value <= 0 {
        "must be a positive integer"@
    } else if value > 65535 {
        "is too large"@
    } else {
        "exceeds maximum "@ + decimal_text(max.unwrap() as nat)
    }
}

/// The asset-level problems of `raw` that `s` reports: an unsupported
/// schema version, an unknown kind, a canvas size or default duration that
/// is not acceptable, a canvas area over the limit, too many frames, and a
/// frame count that does not fit the kind (an unknown kind counts as an
/// image).
pub open spec fn asset_errors(raw: RawProject, s: Seq<ValidationMessage>) -> bool {
    let kind = kind_from_name(raw.asset.kind@);
    let w = raw.asset.width;
    let h = raw.asset.height;
    &&& (!positive_u16_ok(w, Some(MAX_WIDTH)) ==> has_error(s, "asset.width"@, positive_u16_message(w, Some(MAX_WIDTH))))
    &&& (!positive_u16_ok(h, Some(MAX_HEIGHT)) ==> has_error(s, "asset.height"@, positive_u16_message(h, Some(MAX_HEIGHT))))
    &&& (raw.asset.default_frame_duration_ms <= 0 ==> has_error(
        s,
        "asset.default_frame_duration_ms"@,
        "must be a positive integer"@,
    ))
    &&& (positive_u16_ok(w, Some(MAX_WIDTH)) && positive_u16_ok(h, Some(MAX_HEIGHT)) && w * h > MAX_AREA_PER_FRAME
        ==> has_error(
        s,
        "asset"@,
        "area "@ + decimal_text((w * h) as nat) + " exceeds maximum area per frame "@ + decimal_text(
            MAX_AREA_PER_FRAME as nat,
        ),
    ))
    &&& (raw.frames@.len() > MAX_FRAMES ==> has_error(
        s,
        "frames"@,
        "frame count "@ + decimal_text(raw.frames@.len()) + " exceeds maximum "@ + decimal_text(MAX_FRAMES as nat),
    ))
    &&& (raw.schema_version != SCHEMA_VERSION ==> has_error(
        s,
        "schema_version"@,
        "unsupported schema version "@ + decimal_text(raw.schema_version as nat) + "; expected "@ + decimal_text(
            SCHEMA_VERSION as nat,
        ),
    ))
    &&& (kind is None ==> has_error(s, "asset.kind"@, "must be \"image\" or \"animation\""@))
    &&& (kind != Some(AssetKind::Animation) && raw.frames@.len() != 1 ==> has_error(
        s,
        "frames"@,
        "kind = \"image\" requires exactly one frame"@,
    ))
    &&& (kind == Some(AssetKind::Animation) && raw.frames@.len() == 0 ==> has_error(
        s,
        "frames"@,
        "kind = \"animation\" requires one or more frames"@,
    ))
}

/// Asset reports stay when messages are only added.
proof fn lemma_asset_errors_kept(raw: RawProject, o: Seq<ValidationMessage>, f: Seq<ValidationMessage>)
    requires
        kept(o, f),
        asset_errors(raw, o),
    ensures
        asset_errors(raw, f),
{
    let kind = kind_from_name(raw.asset.kind@);
    if raw.schema_version != SCHEMA_VERSION {
        lemma_kept_has(o, f, "schema_version"@, "unsupported schema version "@ + decimal_text(raw.schema_version as nat)
            + "; expected "@ + decimal_text(SCHEMA_VERSION as nat));
    }
    if kind is None {
        lemma_kept_has(o, f, "asset.kind"@, "must be \"image\" or \"animation\""@);
    }
    if kind != Some(AssetKind::Animation) && raw.frames@.len() != 1 {
        lemma_kept_has(o, f, "frames"@, "kind = \"image\" requires exactly one frame"@);
    }
    if kind == Some(AssetKind::Animation) && raw.frames@.len() == 0 {
        lemma_kept_has(o, f, "frames"@, "kind = \"animation\" requires one or more frames"@);
    }
    let w = raw.asset.width;
    let h = raw.asset.height;
    if !positive_u16_ok(w, Some(MAX_WIDTH)) {
        lemma_kept_has(o, f, "asset.width"@, positive_u16_message(w, Some(MAX_WIDTH)));
    }
    if !positive_u16_ok(h, Some(MAX_HEIGHT)) {
        lemma_kept_has(o, f, "asset.height"@, positive_u16_message(h, Some(MAX_HEIGHT)));
    }
    if raw.asset.default_frame_duration_ms <= 0 {
        lemma_kept_has(o, f, "asset.default_frame_duration_ms"@, "must be a positive integer"@);
    }
    if positive_u16_ok(w, Some(MAX_WIDTH)) && positive_u16_ok(h, Some(MAX_HEIGHT)) && w * h > MAX_AREA_PER_FRAME {
        lemma_kept_has(
            o,
            f,
            "asset"@,
            "area "@ + decimal_text((w * h) as nat) + " exceeds maximum area per frame "@ + decimal_text(
                MAX_AREA_PER_FRAME as nat,
            ),
        );
    }
    if raw.frames@.len() > MAX_FRAMES {
        lemma_kept_has(
            o,
            f,
            "frames"@,
            "frame count "@ + decimal_text(raw.frames@.len()) + " exceeds maximum "@ + decimal_text(MAX_FRAMES as nat),
        );
    }
}

/// A message just added is held.
proof fn lemma_pushed_has(o: Seq<ValidationMessage>, m: ValidationMessage)
    ensures
        has_error(o.push(m), m.location@, m.message@),
        kept(o, o.push(m)),
{
    assert(o.push(m)[o.len() as int] == m);
}

/// Messages kept twice over are kept.
proof fn lemma_kept_trans(a: Seq<ValidationMessage>, b: Seq<ValidationMessage>, c: Seq<ValidationMessage>)
    requires
        kept(a, b),
        kept(b, c),
    ensures
        kept(a, c),
{
    assert forall|i: int| 0 <= i < a.len() implies #[trigger] c[i] == a[i] by {
        assert(c[i] == b[i]);
    }
}

/// The size of the canvas and the default duration are acceptable, so
/// validation goes on to the layout and the styles.
pub open spec fn dims_ok(raw: RawProject) -> bool {
    &&& positive_u16_ok(raw.asset.width, Some(MAX_WIDTH))
    &&& positive_u16_ok(raw.asset.height, Some(MAX_HEIGHT))
    &&& raw.asset.default_frame_duration_ms > 0
}

/// A run that starts inside the canvas and names a known style, but whose
/// text runs past the right edge.
pub open spec fn run_past_edge(run: RawRun, width: u16, height: u16, ids: Seq<Seq<char>>) -> bool {
    &&& coordinate_ok(run.x, run.y, width, height)
    &&& style_lookup(ids, run.style@) is Some
    &&& run.text@.len() <= u16::MAX
    &&& run.x + run.text@.len() > width
}

/// Where a run's text is reported.
pub open spec fn run_text_location(frame_location: Seq<char>, j: int) -> Seq<char> {
    frame_location + "."@ + "runs"@ + "["@ + decimal_text(j as nat) + "]"@ + "."@ + "text"@
}

/// Each of the first `n` runs past the right edge is reported in `s`.
pub open spec fn edge_errors(
    frame_location: Seq<char>,
    runs: Seq<RawRun>,
    n: int,
    width: u16,
    height: u16,
    ids: Seq<Seq<char>>,
    s: Seq<ValidationMessage>,
) -> bool {
    forall|j: int|
        0 <= j < n && run_past_edge(#[trigger] runs[j], width, height, ids) ==> has_error(
            s,
            run_text_location(frame_location, j),
            "run text extends outside the canvas"@,
        )
}

/// Reports of runs past the edge stay when messages are only added.
proof fn lemma_edge_errors_kept(
    frame_location: Seq<char>,
    runs: Seq<RawRun>,
    n: int,
    width: u16,
    height: u16,
    ids: Seq<Seq<char>>,
    o: Seq<ValidationMessage>,
    f: Seq<ValidationMessage>,
)
    requires
        kept(o, f),
        edge_errors(frame_location, runs, n, width, height, ids, o),
    ensures
        edge_errors(frame_location, runs, n, width, height, ids, f),
{
    assert forall|j: int| 0 <= j < n && run_past_edge(#[trigger] runs[j], width, height, ids) implies has_error(
        f,
        run_text_location(frame_location, j),
        "run text extends outside the canvas"@,
    ) by {
        lemma_kept_has(o, f, run_text_location(frame_location, j), "run text extends outside the canvas"@);
    }
}

/// A run that is not past the edge adds no report to make.
proof fn lemma_edge_step(
    frame_location: Seq<char>,
    runs: Seq<RawRun>,
    n: int,
    width: u16,
    height: u16,
    ids: Seq<Seq<char>>,
    o: Seq<ValidationMessage>,
    f: Seq<ValidationMessage>,
)
    requires
        0 <= n < runs.len(),
        kept(o, f),
        edge_errors(frame_location, runs, n, width, height, ids, o),
        !run_past_edge(runs[n], width, height, ids),
    ensures
        edge_errors(frame_location, runs, n + 1, width, height, ids, f),
{
    lemma_edge_errors_kept(frame_location, runs, n, width, height, ids, o, f);
}

/// Where run `j` of a frame is reported.
pub open spec fn run_location(frame_location: Seq<char>, j: int) -> Seq<char> {
    frame_location + "."@ + "runs"@ + "["@ + decimal_text(j as nat) + "]"@
}

/// The problems of `run`, reported at `loc`, are in `s`: a start off the
/// canvas; else a style that does not exist; else each character outside
/// the V1 set, and text longer than a row can ever be.
pub open spec fn run_reported(loc: Seq<char>, run: RawRun, width: u16, height: u16, ids: Seq<Seq<char>>, s: Seq<ValidationMessage>) -> bool {
    &&& !coordinate_ok(run.x, run.y, width, height) ==> has_error(s, loc, coordinate_message(run.x, run.y, width, height))
    &&& coordinate_ok(run.x, run.y, width, height) && style_lookup(ids, run.style@) is None ==> has_error(
        s,
        loc + "."@ + "style"@,
        unknown_style_message(run.style@),
    )
    &&& coordinate_ok(run.x, run.y, width, height) && style_lookup(ids, run.style@) is Some ==> {
        &&& chars_reported(loc, run.text@, run.text@.len() as int, s)
        &&& run.text@.len() > u16::MAX ==> has_error(s, loc + "."@ + "text"@, "run text is too long"@)
    }
}

/// Each of the first `n` runs has its problems reported in `s`.
pub open spec fn runs_reported(
    frame_location: Seq<char>,
    runs: Seq<RawRun>,
    n: int,
    width: u16,
    height: u16,
    ids: Seq<Seq<char>>,
    s: Seq<ValidationMessage>,
) -> bool {
    forall|j: int| 0 <= j < n ==> run_reported(run_location(frame_location, j), #[trigger] runs[j], width, height, ids, s)
}

/// A run's reports stay when messages are only added.
proof fn lemma_run_reported_kept(loc: Seq<char>, run: RawRun, width: u16, height: u16, ids: Seq<Seq<char>>, o: Seq<ValidationMessage>, f: Seq<ValidationMessage>)
    requires
        kept(o, f),
        run_reported(loc, run, width, height, ids, o),
    ensures
        run_reported(loc, run, width, height, ids, f),
{
    if !coordinate_ok(run.x, run.y, width, height) {
        lemma_kept_has(o, f, loc, coordinate_message(run.x, run.y, width, height));
    } else if style_lookup(ids, run.style@) is None {
        lemma_kept_has(o, f, loc + "."@ + "style"@, unknown_style_message(run.style@));
    } else {
        lemma_chars_reported_kept(loc, run.text@, run.text@.len() as int, o, f);
        if run.text@.len() > u16::MAX {
            lemma_kept_has(o, f, loc + "."@ + "text"@, "run text is too long"@);
        }
    }
}

/// Run reports stay when messages are only added.
proof fn lemma_runs_reported_kept(
    frame_location: Seq<char>,
    runs: Seq<RawRun>,
    n: int,
    width: u16,
    height: u16,
    ids: Seq<Seq<char>>,
    o: Seq<ValidationMessage>,
    f: Seq<ValidationMessage>,
)
    requires
        kept(o, f),
        runs_reported(frame_location, runs, n, width, height, ids, o),
    ensures
        runs_reported(frame_location, runs, n, width, height, ids, f),
{
    assert forall|j: int| 0 <= j < n implies run_reported(run_location(frame_location, j), #[trigger] runs[j], width, height, ids, f) by {
        lemma_run_reported_kept(run_location(frame_location, j), runs[j], width, height, ids, o, f);
    }
}

/// Where explicit cell `k` of a frame is reported.
pub open spec fn cell_location(frame_location: Seq<char>, k: int) -> Seq<char> {
    frame_location + "."@ + "cells"@ + "["@ + decimal_text(k as nat) + "]"@
}

/// The problems of `cell`, reported at `loc`, are in `s`: a position off
/// the canvas; else a style that does not exist; else a character that is
/// empty, more than one scalar value, or outside the V1 set.
pub open spec fn cell_reported(loc: Seq<char>, cell: RawCell, width: u16, height: u16, ids: Seq<Seq<char>>, s: Seq<ValidationMessage>) -> bool {
    &&& !coordinate_ok(cell.x, cell.y, width, height) ==> has_error(s, loc, coordinate_message(cell.x, cell.y, width, height))
    &&& coordinate_ok(cell.x, cell.y, width, height) && style_lookup(ids, cell.style@) is None ==> has_error(
        s,
        loc + "."@ + "style"@,
        unknown_style_message(cell.style@),
    )
    &&& coordinate_ok(cell.x, cell.y, width, height) && style_lookup(ids, cell.style@) is Some ==> {
        &&& cell.ch@.len() == 0 ==> has_error(s, loc + "."@ + "ch"@, "cell character cannot be empty"@)
        &&& cell.ch@.len() > 1 ==> has_error(
            s,
            loc + "."@ + "ch"@,
            "cell character must contain exactly one Unicode scalar value"@,
        )
        &&& cell.ch@.len() == 1 && !spec_is_valid_v1_character(cell.ch@[0]) ==> has_error(
            s,
            loc + "."@ + "ch"@,
            invalid_char_message(cell.ch@[0]),
        )
    }
}

/// Each of the first `n` explicit cells has its problems reported in `s`.
pub open spec fn cells_reported(
    frame_location: Seq<char>,
    cells: Seq<RawCell>,
    n: int,
    width: u16,
    height: u16,
    ids: Seq<Seq<char>>,
    s: Seq<ValidationMessage>,
) -> bool {
    forall|k: int| 0 <= k < n ==> cell_reported(cell_location(frame_location, k), #[trigger] cells[k], width, height, ids, s)
}

/// A cell's reports stay when messages are only added.
proof fn lemma_cell_reported_kept(loc: Seq<char>, cell: RawCell, width: u16, height: u16, ids: Seq<Seq<char>>, o: Seq<ValidationMessage>, f: Seq<ValidationMessage>)
    requires
        kept(o, f),
        cell_reported(loc, cell, width, height, ids, o),
    ensures
        cell_reported(loc, cell, width, height, ids, f),
{
    if !coordinate_ok(cell.x, cell.y, width, height) {
        lemma_kept_has(o, f, loc, coordinate_message(cell.x, cell.y, width, height));
    } else if style_lookup(ids, cell.style@) is None {
        lemma_kept_has(o, f, loc + "."@ + "style"@, unknown_style_message(cell.style@));
    } else if cell.ch@.len() == 0 {
        lemma_kept_has(o, f, loc + "."@ + "ch"@, "cell character cannot be empty"@);
    } else if cell.ch@.len() > 1 {
        lemma_kept_has(o, f, loc + "."@ + "ch"@, "cell character must contain exactly one Unicode scalar value"@);
    } else if !spec_is_valid_v1_character(cell.ch@[0]) {
        lemma_kept_has(o, f, loc + "."@ + "ch"@, invalid_char_message(cell.ch@[0]));
    }
}

/// Cell reports stay when messages are only added.
proof fn lemma_cells_reported_kept(
    frame_location: Seq<char>,
    cells: Seq<RawCell>,
    n: int,
    width: u16,
    height: u16,
    ids: Seq<Seq<char>>,
    o: Seq<ValidationMessage>,
    f: Seq<ValidationMessage>,
)
    requires
        kept(o, f),
        cells_reported(frame_location, cells, n, width, height, ids, o),
    ensures
        cells_reported(frame_location, cells, n, width, height, ids, f),
{
    assert forall|k: int| 0 <= k < n implies cell_reported(cell_location(frame_location, k), #[trigger] cells[k], width, height, ids, f) by {
        lemma_cell_reported_kept(cell_location(frame_location, k), cells[k], width, height, ids, o, f);
    }
}

/// Where frame `i` is reported.
pub open spec fn frame_location(i: int) -> Seq<char> {
    "frames"@ + "["@ + decimal_text(i as nat) + "]"@
}

/// In each of the first `n` frames, each run past the right edge is
/// reported in `s`.
pub open spec fn frames_edge_errors(frames: Seq<RawFrame>, n: int, width: u16, height: u16, ids: Seq<Seq<char>>, s: Seq<ValidationMessage>) -> bool {
    forall|i: int|
        0 <= i < n ==> edge_errors(
            frame_location(i),
            (#[trigger] frames[i]).runs@,
            frames[i].runs@.len() as int,
            width,
            height,
            ids,
            s,
        )
}

/// Each of the first `n` frames has its own problems reported in `s`: too
/// many runs or explicit cells, a blank ID, an ID that an earlier frame
/// carries, and a duration that is not positive.
pub open spec fn frame_field_errors(frames: Seq<RawFrame>, n: int, s: Seq<ValidationMessage>) -> bool {
    forall|i: int|
        0 <= i < n ==> {
            &&& ((#[trigger] frames[i]).runs@.len() > MAX_RUNS_PER_FRAME ==> has_error(
                s,
                frame_location(i) + "."@ + "runs"@,
                "run count "@ + decimal_text(frames[i].runs@.len()) + " exceeds maximum "@ + decimal_text(
                    MAX_RUNS_PER_FRAME as nat,
                ),
            ))
            &&& (frames[i].cells@.len() > MAX_EXPLICIT_CELLS_PER_FRAME ==> has_error(
                s,
                frame_location(i) + "."@ + "cells"@,
                "cell count "@ + decimal_text(frames[i].cells@.len()) + " exceeds maximum "@ + decimal_text(
                    MAX_EXPLICIT_CELLS_PER_FRAME as nat,
                ),
            ))
            &&& (frames[i].id matches Some(id) && is_blank(id@) ==> has_error(
                s,
                frame_location(i) + "."@ + "id"@,
                "frame ID cannot be empty"@,
            ))
            &&& (frames[i].id matches Some(id) && !is_blank(id@) && id_used_before(frames, i, id@) ==> has_error(
                s,
                frame_location(i) + "."@ + "id"@,
                "duplicate frame ID"@,
            ))
            &&& (frames[i].duration_ms matches Some(d) && d <= 0 ==> has_error(
                s,
                frame_location(i) + "."@ + "duration_ms"@,
                "must be a positive integer"@,
            ))
        }
}

/// What the report says when the frames, each acceptable on its own,
/// compose to more cells than the all-frames limit.
pub open spec fn total_cells_message() -> Seq<char> {
    "expanded cells across all frames exceeds maximum "@ + decimal_text(MAX_EXPANDED_CELLS_ALL_FRAMES as nat)
}

/// When the first `n` frames are each acceptable but together compose to
/// more cells than the limit, `s` says so.
pub open spec fn total_cells_error(
    frames: Seq<RawFrame>,
    n: int,
    width: u16,
    height: u16,
    ids: Seq<Seq<char>>,
    s: Seq<ValidationMessage>,
) -> bool {
    (forall|k: int| 0 <= k < n ==> #[trigger] raw_frame_ok(frames, k, width, height, ids)) && total_composed_cells(
        frames.take(n),
        ids,
    ) > MAX_EXPANDED_CELLS_ALL_FRAMES ==> has_error(s, "frames"@, total_cells_message())
}

/// Frame ID and duration reports stay when messages are only added.
proof fn lemma_frame_fields_kept(frames: Seq<RawFrame>, n: int, o: Seq<ValidationMessage>, f: Seq<ValidationMessage>)
    requires
        kept(o, f),
        frame_field_errors(frames, n, o),
    ensures
        frame_field_errors(frames, n, f),
{
    assert forall|i: int| 0 <= i < n implies {
        &&& ((#[trigger] frames[i]).runs@.len() > MAX_RUNS_PER_FRAME ==> has_error(
            f,
            frame_location(i) + "."@ + "runs"@,
            "run count "@ + decimal_text(frames[i].runs@.len()) + " exceeds maximum "@ + decimal_text(
                MAX_RUNS_PER_FRAME as nat,
            ),
        ))
        &&& (frames[i].cells@.len() > MAX_EXPLICIT_CELLS_PER_FRAME ==> has_error(
            f,
            frame_location(i) + "."@ + "cells"@,
            "cell count "@ + decimal_text(frames[i].cells@.len()) + " exceeds maximum "@ + decimal_text(
                MAX_EXPLICIT_CELLS_PER_FRAME as nat,
            ),
        ))
        &&& (frames[i].id matches Some(id) && is_blank(id@) ==> has_error(
            f,
            frame_location(i) + "."@ + "id"@,
            "frame ID cannot be empty"@,
        ))
        &&& (frames[i].id matches Some(id) && !is_blank(id@) && id_used_before(frames, i, id@) ==> has_error(
            f,
            frame_location(i) + "."@ + "id"@,
            "duplicate frame ID"@,
        ))
        &&& (frames[i].duration_ms matches Some(d) && d <= 0 ==> has_error(
            f,
            frame_location(i) + "."@ + "duration_ms"@,
            "must be a positive integer"@,
        ))
    } by {
        let loc_id = frame_location(i) + "."@ + "id"@;
        let loc_d = frame_location(i) + "."@ + "duration_ms"@;
        let loc_r = frame_location(i) + "."@ + "runs"@;
        let loc_c = frame_location(i) + "."@ + "cells"@;
        let msg_r = "run count "@ + decimal_text(frames[i].runs@.len()) + " exceeds maximum "@ + decimal_text(
            MAX_RUNS_PER_FRAME as nat,
        );
        let msg_c = "cell count "@ + decimal_text(frames[i].cells@.len()) + " exceeds maximum "@ + decimal_text(
            MAX_EXPLICIT_CELLS_PER_FRAME as nat,
        );
        if has_error(o, loc_r, msg_r) {
            lemma_kept_has(o, f, loc_r, msg_r);
        }
        if has_error(o, loc_c, msg_c) {
            lemma_kept_has(o, f, loc_c, msg_c);
        }
        if has_error(o, loc_id, "frame ID cannot be empty"@) {
            lemma_kept_has(o, f, loc_id, "frame ID cannot be empty"@);
        }
        if has_error(o, loc_id, "duplicate frame ID"@) {
            lemma_kept_has(o, f, loc_id, "duplicate frame ID"@);
        }
        if has_error(o, loc_d, "must be a positive integer"@) {
            lemma_kept_has(o, f, loc_d, "must be a positive integer"@);
        }
    }
}

/// In each of the first `n` frames, each run has its problems reported in
/// `s`.
pub open spec fn frames_runs_reported(frames: Seq<RawFrame>, n: int, width: u16, height: u16, ids: Seq<Seq<char>>, s: Seq<ValidationMessage>) -> bool {
    forall|i: int|
        0 <= i < n ==> runs_reported(
            frame_location(i),
            (#[trigger] frames[i]).runs@,
            frames[i].runs@.len() as int,
            width,
            height,
            ids,
            s,
        )
}

/// In each of the first `n` frames, each explicit cell has its problems
/// reported in `s`.
pub open spec fn frames_cells_reported(frames: Seq<RawFrame>, n: int, width: u16, height: u16, ids: Seq<Seq<char>>, s: Seq<ValidationMessage>) -> bool {
    forall|i: int|
        0 <= i < n ==> cells_reported(
            frame_location(i),
            (#[trigger] frames[i]).cells@,
            frames[i].cells@.len() as int,
            width,
            height,
            ids,
            s,
        )
}

/// Cell reports of whole frames stay when messages are only added.
proof fn lemma_frames_cells_kept(frames: Seq<RawFrame>, n: int, width: u16, height: u16, ids: Seq<Seq<char>>, o: Seq<ValidationMessage>, f: Seq<ValidationMessage>)
    requires
        kept(o, f),
        frames_cells_reported(frames, n, width, height, ids, o),
    ensures
        frames_cells_reported(frames, n, width, height, ids, f),
{
    assert forall|i: int| 0 <= i < n implies cells_reported(
        frame_location(i),
        (#[trigger] frames[i]).cells@,
        frames[i].cells@.len() as int,
        width,
        height,
        ids,
        f,
    ) by {
        lemma_cells_reported_kept(frame_location(i), frames[i].cells@, frames[i].cells@.len() as int, width, height, ids, o, f);
    }
}

/// The runs and cells of `f` are each acceptable, but together they write
/// more cells than a frame may.
pub open spec fn writes_over(f: RawFrame, width: u16, height: u16, ids: Seq<Seq<char>>) -> bool {
    &&& forall|k: int| 0 <= k < f.runs@.len() ==> #[trigger] run_ok(f.runs@[k], width, height, ids)
    &&& forall|k: int| 0 <= k < f.cells@.len() ==> #[trigger] cell_ok(f.cells@[k], width, height, ids)
    &&& run_chars_total(f.runs@) + f.cells@.len() > spec_max_expanded_writes(width, height)
}

/// Each of the first `n` frames that writes more cells than a frame may,
/// though its runs and cells are each acceptable, has that reported in `s`.
pub open spec fn frames_writes_reported(frames: Seq<RawFrame>, n: int, width: u16, height: u16, ids: Seq<Seq<char>>, s: Seq<ValidationMessage>) -> bool {
    forall|i: int|
        0 <= i < n && writes_over(#[trigger] frames[i], width, height, ids) ==> has_error(
            s,
            frame_location(i),
            writes_message(spec_max_expanded_writes(width, height)),
        )
}

/// Run reports of whole frames stay when messages are only added.
proof fn lemma_frames_runs_kept(frames: Seq<RawFrame>, n: int, width: u16, height: u16, ids: Seq<Seq<char>>, o: Seq<ValidationMessage>, f: Seq<ValidationMessage>)
    requires
        kept(o, f),
        frames_runs_reported(frames, n, width, height, ids, o),
    ensures
        frames_runs_reported(frames, n, width, height, ids, f),
{
    assert forall|i: int| 0 <= i < n implies runs_reported(
        frame_location(i),
        (#[trigger] frames[i]).runs@,
        frames[i].runs@.len() as int,
        width,
        height,
        ids,
        f,
    ) by {
        lemma_runs_reported_kept(frame_location(i), frames[i].runs@, frames[i].runs@.len() as int, width, height, ids, o, f);
    }
}

/// Frame reports stay when messages are only added.
proof fn lemma_frames_edge_kept(frames: Seq<RawFrame>, n: int, width: u16, height: u16, ids: Seq<Seq<char>>, o: Seq<ValidationMessage>, f: Seq<ValidationMessage>)
    requires
        kept(o, f),
        frames_edge_errors(frames, n, width, height, ids, o),
    ensures
        frames_edge_errors(frames, n, width, height, ids, f),
{
    assert forall|i: int| 0 <= i < n implies edge_errors(
        frame_location(i),
        (#[trigger] frames[i]).runs@,
        frames[i].runs@.len() as int,
        width,
        height,
        ids,
        f,
    ) by {
        lemma_edge_errors_kept(frame_location(i), frames[i].runs@, frames[i].runs@.len() as int, width, height, ids, o, f);
    }
}

/// Records an error.
fn push_error(report: &mut ValidationReport, location: String, text: String)
    ensures
        kept(old(report).errors@, final(report).errors@),
        final(report).errors@ == old(report).errors@.push(ValidationMessage { location: location, message: text }),
        final(report).warnings == old(report).warnings,
{
    report.errors.push(ValidationMessage { location, message: text });
}

/// Records a warning.
fn push_warning(report: &mut ValidationReport, location: String, text: String)
    ensures
        kept(old(report).errors@, final(report).errors@),
        final(report).warnings@ == old(report).warnings@.push(ValidationMessage { location: location, message: text }),
        final(report).errors == old(report).errors,
{
    report.warnings.push(ValidationMessage { location, message: text });
}

// ---------------------------------------------------------------------------
// Scalar fields

/// A positive integer that fits `u16` and, when given, `max`.
pub open spec fn positive_u16_ok(value: i64, max: Option<u16>) -> bool {
    &&& value > 0
    &&& value <= u16::MAX
    &&& (max matches Some(m) ==> value <= m)
}

/// Reads a positive `u16`, recording an error when it is not one.
fn validate_positive_u16(report: &mut ValidationReport, location: String, value: i64, max: Option<u16>) -> (r: Option<u16>)
    ensures
        kept(old(report).errors@, final(report).errors@),
        final(report).warnings == old(report).warnings,
        old(report).errors@.len() <= final(report).errors@.len(),
        (final(report).errors@.len() == old(report).errors@.len()) == positive_u16_ok(value, max),
        r is Some == positive_u16_ok(value, max),
        r matches Some(v) ==> v == value,
        positive_u16_ok(value, max) ==> *final(report) == *old(report),
        !positive_u16_ok(value, max) ==> has_error(final(report).errors@, location@, positive_u16_message(value, max)),
{
    let ghost where_at = location@;
    if value <= 0 {
        push_error(report, location, owned("must be a positive integer"));
        proof {
            assert(report.errors@[report.errors@.len() - 1].location@ == where_at);
        }
        return None;
    }
    if value > 65535 {
        push_error(report, location, owned("is too large"));
        proof {
            assert(report.errors@[report.errors@.len() - 1].location@ == where_at);
        }
        return None;
    }
    let v = value as u16;
    match max {
        Some(m) => {
            if v > m {
                let text = with_number("exceeds maximum ", m as u64, "");
                proof {
                    reveal_strlit("");
                    assert(text@ =~= positive_u16_message(value, max));
                }
                push_error(report, location, text);
                proof {
                    assert(report.errors@[report.errors@.len() - 1].location@ == where_at);
                }
                return None;
            }
        },
        None => {},
    }
    Some(v)
}

/// Reads a positive `u64`, recording an error when it is not one.
fn validate_positive_u64(report: &mut ValidationReport, location: String, value: i64) -> (r: Option<u64>)
    ensures
        kept(old(report).errors@, final(report).errors@),
        final(report).warnings == old(report).warnings,
        old(report).errors@.len() <= final(report).errors@.len(),
        (final(report).errors@.len() == old(report).errors@.len()) == (value > 0),
        r is Some == (value > 0),
        r matches Some(v) ==> v == value,
        value > 0 ==> *final(report) == *old(report),
        value <= 0 ==> has_error(final(report).errors@, location@, "must be a positive integer"@),
{
    if value <= 0 {
        let ghost where_at = location@;
        push_error(report, location, owned("must be a positive integer"));
        proof {
            assert(report.errors@[report.errors@.len() - 1].location@ == where_at);
        }
        return None;
    }
    Some(value as u64)
}

/// A cell position inside a `width` by `height` canvas.
pub open spec fn coordinate_ok(x: i64, y: i64, width: u16, height: u16) -> bool {
    0 <= x < width && 0 <= y < height
}

/// What the report says of a position that is not on the canvas.
pub open spec fn coordinate_message(x: i64, y: i64, width: u16, height: u16) -> Seq<char> {
    if x < 0 || y < 0 {
        "coordinate cannot be negative"@
    } else if x > 65535 {
        "x coordinate is too large"@
    } else if y > 65535 {
        "y coordinate is too large"@
    } else {
        "coordinate is outside the canvas"@
    }
}

/// Reads a position inside the canvas, recording an error when it is outside.
fn validate_coordinate(report: &mut ValidationReport, location: &String, x: i64, y: i64, width: u16, height: u16) -> (r: Option<(u16, u16)>)
    ensures
        kept(old(report).errors@, final(report).errors@),
        final(report).warnings == old(report).warnings,
        old(report).errors@.len() <= final(report).errors@.len(),
        (final(report).errors@.len() == old(report).errors@.len()) == coordinate_ok(x, y, width, height),
        r is Some == coordinate_ok(x, y, width, height),
        r matches Some(p) ==> p.0 == x && p.1 == y,
        !coordinate_ok(x, y, width, height) ==> has_error(
            final(report).errors@,
            location@,
            coordinate_message(x, y, width, height),
        ),
{
    if x < 0 || y < 0 {
        push_error(report, location.clone(), owned("coordinate cannot be negative"));
        proof {
            assert(report.errors@[report.errors@.len() - 1].location@ == location@);
        }
        return None;
    }
    if x > 65535 {
        push_error(report, location.clone(), owned("x coordinate is too large"));
        proof {
            assert(report.errors@[report.errors@.len() - 1].location@ == location@);
        }
        return None;
    }
    if y > 65535 {
        push_error(report, location.clone(), owned("y coordinate is too large"));
        proof {
            assert(report.errors@[report.errors@.len() - 1].location@ == location@);
        }
        return None;
    }
    let xx = x as u16;
    let yy = y as u16;
    if xx >= width || yy >= height {
        push_error(report, location.clone(), owned("coordinate is outside the canvas"));
        proof {
            assert(report.errors@[report.errors@.len() - 1].location@ == location@);
        }
        return None;
    }
    Some((xx, yy))
}

// ---------------------------------------------------------------------------
// Style references

/// The index a style ID resolves to: the last style with that ID, as a map
/// filled in file order keeps it.
pub open spec fn style_lookup(ids: Seq<Seq<char>>, id: Seq<char>) -> Option<nat>
    decreases ids.len(),
{
    if ids.len() == 0 {
        None
    } else if ids.last() == id {
        Some((ids.len() - 1) as nat)
    } else {
        style_lookup(ids.drop_last(), id)
    }
}

proof fn lemma_style_lookup_bound(ids: Seq<Seq<char>>, id: Seq<char>)
    ensures
        style_lookup(ids, id) matches Some(i) ==> i < ids.len() && ids[i as int] == id,
    decreases ids.len(),
{
    if ids.len() > 0 && ids.last() != id {
        lemma_style_lookup_bound(ids.drop_last(), id);
    }
}

/// What the report says of a reference to a style that does not exist.
pub open spec fn unknown_style_message(id: Seq<char>) -> Seq<char> {
    "unknown style reference "@ + str_debug_text(id)
}

/// Resolves a style ID, recording an error when no style has it.
fn resolve_style(report: &mut ValidationReport, location: String, style_id: &String, style_ids: &Vec<Vec<char>>) -> (r: Option<usize>)
    ensures
        kept(old(report).errors@, final(report).errors@),
        final(report).warnings == old(report).warnings,
        old(report).errors@.len() <= final(report).errors@.len(),
        (final(report).errors@.len() == old(report).errors@.len()) == (style_lookup(seq_of_ids(style_ids@), style_id@) is Some),
        r matches Some(i) ==> style_lookup(seq_of_ids(style_ids@), style_id@) == Some(i as nat),
        r is Some == (style_lookup(seq_of_ids(style_ids@), style_id@) is Some),
        style_lookup(seq_of_ids(style_ids@), style_id@) is None ==> has_error(
            final(report).errors@,
            location@,
            unknown_style_message(style_id@),
        ),
{
    let wanted = chars_of(style_id.as_str());
    let ghost ids = seq_of_ids(style_ids@);
    let mut i = style_ids.len();
    proof {
        assert(ids.take(ids.len() as int) == ids);
    }
    while i > 0
        invariant
            i <= style_ids@.len(),
            ids == seq_of_ids(style_ids@),
            wanted@ == style_id@,
            style_lookup(ids, wanted@) == style_lookup(ids.take(i as int), wanted@),
        decreases i,
    {
        proof {
            assert(ids.take(i as int).drop_last() == ids.take(i - 1));
            assert(ids.take(i as int).last() == style_ids@[i - 1]@);
        }
        if chars_equal(&style_ids[i - 1], &wanted) {
            return Some(i - 1);
        }
        i -= 1;
    }
    let mut text = owned("unknown style reference ");
    let quoted = str_debug_string(style_id.as_str());
    push_str(&mut text, quoted.as_str());
    let ghost where_at = location@;
    push_error(report, location, text);
    proof {
        assert(report.errors@[report.errors@.len() - 1].location@ == where_at);
    }
    None
}

/// The views of a list of character vectors.
pub open spec fn seq_of_ids(v: Seq<Vec<char>>) -> Seq<Seq<char>> {
    v.map_values(|c: Vec<char>| c@)
}

// ---------------------------------------------------------------------------
// Layout

/// The layout table, when present, holds only accepted values.
pub open spec fn layout_ok(raw: Option<RawLayout>) -> bool {
    match raw {
        None => true,
        Some(l) => {
            &&& (l.min_width matches Some(v) ==> positive_u16_ok(v, None))
            &&& (l.min_height matches Some(v) ==> positive_u16_ok(v, None))
            &&& (l.anchor matches Some(a) ==> anchor_from_name(a@) is Some)
            &&& (l.overflow matches Some(o) ==> overflow_from_name(o@) is Some)
        },
    }
}

/// The layout a valid layout table stands for, with absent fields defaulted
/// to the asset size, `center` and `clip`.
pub open spec fn spec_layout(raw: Option<RawLayout>, width: u16, height: u16) -> Layout {
    let l = match raw {
        Some(l) => l,
        None => RawLayout { min_width: None, min_height: None, anchor: None, overflow: None },
    };
    Layout {
        min_width: match l.min_width {
            Some(v) => v as u16,
            None => width,
        },
        min_height: match l.min_height {
            Some(v) => v as u16,
            None => height,
        },
        anchor: match l.anchor {
            Some(a) => anchor_from_name(a@).unwrap(),
            None => Anchor::Center,
        },
        overflow: match l.overflow {
            Some(o) => overflow_from_name(o@).unwrap(),
            None => Overflow::Clip,
        },
    }
}

/// Each rejected field of the layout table is reported in `s`: a minimum
/// size that is not a positive `u16`, and an unknown anchor or overflow.
pub open spec fn layout_errors(raw: Option<RawLayout>, s: Seq<ValidationMessage>) -> bool {
    raw matches Some(l) ==> {
        &&& match l.min_width {
            Some(v) => !positive_u16_ok(v, None) ==> has_error(s, "layout.min_width"@, positive_u16_message(v, None)),
            None => true,
        }
        &&& match l.min_height {
            Some(v) => !positive_u16_ok(v, None) ==> has_error(s, "layout.min_height"@, positive_u16_message(v, None)),
            None => true,
        }
        &&& (l.anchor matches Some(a) && anchor_from_name(a@) is None ==> has_error(
            s,
            "layout.anchor"@,
            "invalid anchor value"@,
        ))
        &&& (l.overflow matches Some(o) && overflow_from_name(o@) is None ==> has_error(
            s,
            "layout.overflow"@,
            "invalid overflow value"@,
        ))
    }
}

/// Layout reports stay when messages are only added.
proof fn lemma_layout_errors_kept(raw: Option<RawLayout>, o: Seq<ValidationMessage>, f: Seq<ValidationMessage>)
    requires
        kept(o, f),
        layout_errors(raw, o),
    ensures
        layout_errors(raw, f),
{
    if let Some(l) = raw {
        if let Some(v) = l.min_width {
            if !positive_u16_ok(v, None) {
                lemma_kept_has(o, f, "layout.min_width"@, positive_u16_message(v, None));
            }
        }
        if let Some(v) = l.min_height {
            if !positive_u16_ok(v, None) {
                lemma_kept_has(o, f, "layout.min_height"@, positive_u16_message(v, None));
            }
        }
        if let Some(a) = l.anchor {
            if anchor_from_name(a@) is None {
                lemma_kept_has(o, f, "layout.anchor"@, "invalid anchor value"@);
            }
        }
        if let Some(x) = l.overflow {
            if overflow_from_name(x@) is None {
                lemma_kept_has(o, f, "layout.overflow"@, "invalid overflow value"@);
            }
        }
    }
}

/// Normalizes the layout table, recording an error for each rejected field.
pub fn validate_layout(report: &mut ValidationReport, raw: Option<RawLayout>, width: u16, height: u16) -> (r: Option<Layout>)
    ensures
        kept(old(report).errors@, final(report).errors@),
        final(report).warnings == old(report).warnings,
        old(report).errors@.len() <= final(report).errors@.len(),
        (final(report).errors@.len() == old(report).errors@.len()) == layout_ok(raw),
        r is Some == layout_ok(raw),
        r matches Some(l) ==> l == spec_layout(raw, width, height),
        layout_ok(raw) ==> *final(report) == *old(report),
        layout_errors(raw, final(report).errors@),
{
    let l = match raw {
        Some(l) => l,
        None => RawLayout { min_width: None, min_height: None, anchor: None, overflow: None },
    };
    let ghost start = report.errors@.len();
    let min_width = match l.min_width {
        Some(value) => validate_positive_u16(report, owned("layout.min_width"), value, None),
        None => Some(width),
    };
    let ghost after_w = report.errors@.len();
    let ghost errors_w = report.errors@;
    let min_height = match l.min_height {
        Some(value) => validate_positive_u16(report, owned("layout.min_height"), value, None),
        None => Some(height),
    };
    let ghost after_h = report.errors@.len();
    let ghost errors_h = report.errors@;
    let anchor = match &l.anchor {
        Some(value) => match Anchor::parse(value.as_str()) {
            Some(a) => Some(a),
            None => {
                let location = owned("layout.anchor");
                let text = owned("invalid anchor value");
                proof {
                    lemma_pushed_has(report.errors@, ValidationMessage { location: location, message: text });
                }
                push_error(report, location, text);
                None
            },
        },
        None => Some(Anchor::Center),
    };
    let ghost after_a = report.errors@.len();
    let ghost errors_a = report.errors@;
    let overflow = match &l.overflow {
        Some(value) => match Overflow::parse(value.as_str()) {
            Some(o) => Some(o),
            None => {
                let location = owned("layout.overflow");
                let text = owned("invalid overflow value");
                proof {
                    lemma_pushed_has(report.errors@, ValidationMessage { location: location, message: text });
                }
                push_error(report, location, text);
                None
            },
        },
        None => Some(Overflow::Clip),
    };
    proof {
        assert(start <= after_w <= after_h <= after_a <= report.errors@.len());
        lemma_kept_trans(errors_w, errors_h, errors_a);
        lemma_kept_trans(errors_w, errors_a, report.errors@);
        lemma_kept_trans(errors_h, errors_a, report.errors@);
        if let Some(v) = l.min_width {
            if !positive_u16_ok(v, None) {
                lemma_kept_has(errors_w, report.errors@, "layout.min_width"@, positive_u16_message(v, None));
            }
        }
        if let Some(v) = l.min_height {
            if !positive_u16_ok(v, None) {
                lemma_kept_has(errors_h, report.errors@, "layout.min_height"@, positive_u16_message(v, None));
            }
        }
        if let Some(a) = l.anchor {
            if anchor_from_name(a@) is None {
                lemma_kept_has(errors_a, report.errors@, "layout.anchor"@, "invalid anchor value"@);
            }
        }
    }
    match (min_width, min_height, anchor, overflow) {
        (Some(min_width), Some(min_height), Some(anchor), Some(overflow)) => Some(
            Layout { min_width, min_height, anchor, overflow },
        ),
        _ => None,
    }
}

// ---------------------------------------------------------------------------
// Styles

/// An owned copy of an optional string.
pub fn clone_opt_string(o: &Option<String>) -> (r: Option<String>)
    ensures
        r == *o,
{
    match o {
        Some(s) => Some(s.clone()),
        None => None,
    }
}

/// A background value that is absent, `transparent` or `#RRGGBB`.
pub open spec fn bg_ok(bg: Option<String>) -> bool {
    match bg {
        None => true,
        Some(b) => b@ == "transparent"@ || spec_parse_hex(b@) is Some,
    }
}

/// The background a valid background value stands for.
pub open spec fn spec_bg(bg: Option<String>) -> Option<Color> {
    match bg {
        None => None,
        Some(b) => if b@ == "transparent"@ {
            None
        } else {
            spec_parse_hex(b@)
        },
    }
}

/// The style at index `i` is acceptable: a non-blank ID unused by earlier
/// styles, an opaque `#RRGGBB` foreground, a valid background and known
/// attributes.
pub open spec fn raw_style_ok(styles: Seq<RawStyle>, i: int) -> bool {
    let s = styles[i];
    &&& !is_blank(s.id@)
    &&& forall|j: int| 0 <= j < i ==> (#[trigger] styles[j]).id@ != s.id@
    &&& s.fg@ != "transparent"@
    &&& spec_parse_hex(s.fg@) is Some
    &&& bg_ok(s.bg)
    &&& forall|k: int| 0 <= k < s.attrs@.len() ==> (#[trigger] attr_from_name(s.attrs@[k]@)) is Some
}

/// The style list is acceptable: at most `MAX_STYLES` styles, each acceptable.
pub open spec fn styles_ok(styles: Seq<RawStyle>) -> bool {
    &&& styles.len() <= MAX_STYLES
    &&& forall|i: int| 0 <= i < styles.len() ==> #[trigger] raw_style_ok(styles, i)
}

/// `t` is the style that the valid raw style `s` stands for.
pub open spec fn style_from_raw(t: TerminalStyle, s: RawStyle) -> bool {
    &&& t.id@ == s.id@
    &&& t.fg == spec_parse_hex(s.fg@).unwrap()
    &&& t.bg == spec_bg(s.bg)
    &&& t.attrs@ == s.attrs@.map_values(|a: String| attr_from_name(a@).unwrap())
    &&& t.role == s.role
}

/// Checks each raw style, recording every rejected field; the styles come
/// back only when the report holds no error at all.
pub fn validate_styles(report: &mut ValidationReport, raw_styles: Vec<RawStyle>) -> (r: Option<Vec<TerminalStyle>>)
    ensures
        kept(old(report).errors@, final(report).errors@),
        final(report).warnings == old(report).warnings,
        old(report).errors@.len() <= final(report).errors@.len(),
        (final(report).errors@.len() == old(report).errors@.len()) == styles_ok(raw_styles@),
        r is Some == (final(report).errors@.len() == 0),
        r matches Some(v) ==> v@.len() == raw_styles@.len() && forall|i: int|
            0 <= i < v@.len() ==> style_from_raw(#[trigger] v@[i], raw_styles@[i]),
        fg_errors(raw_styles@, raw_styles@.len() as int, final(report).errors@),
        styles_reported(raw_styles@, raw_styles@.len() as int, final(report).errors@),
        raw_styles@.len() > MAX_STYLES ==> has_error(final(report).errors@, "styles"@, style_count_message(raw_styles@.len())),
{
    let ghost start = report.errors@.len();
    if raw_styles.len() > MAX_STYLES {
        let count_location = owned("styles");
        let count_text = with_two_numbers("style count ", raw_styles.len() as u64, " exceeds maximum ", MAX_STYLES as u64);
        proof {
            lemma_pushed_has(report.errors@, ValidationMessage { location: count_location, message: count_text });
        }
        push_error(report, count_location, count_text);
    }
    let mut styles: Vec<TerminalStyle> = Vec::new();
    let mut i: usize = 0;
    while i < raw_styles.len()
        invariant
            kept(old(report).errors@, report.errors@),
            fg_errors(raw_styles@, i as int, report.errors@),
            styles_reported(raw_styles@, i as int, report.errors@),
            raw_styles@.len() > MAX_STYLES ==> has_error(report.errors@, "styles"@, style_count_message(raw_styles@.len())),
            i <= raw_styles@.len(),
            start <= report.errors@.len(),
            report.warnings == old(report).warnings,
            start == old(report).errors@.len(),
            (report.errors@.len() == start) == (raw_styles@.len() <= MAX_STYLES && forall|j: int|
                0 <= j < i ==> #[trigger] raw_style_ok(raw_styles@, j)),
            report.errors@.len() == start ==> styles@.len() == i && forall|j: int|
                0 <= j < i ==> style_from_raw(#[trigger] styles@[j], raw_styles@[j]),
        decreases raw_styles.len() - i,
    {
        let ghost before = report.errors@.len();
        let ghost errors_at_start = report.errors@;
        let raw = &raw_styles[i];
        let location = indexed("styles", i);
        let id_chars = chars_of(raw.id.as_str());
        let trimmed = trim_chars(&id_chars);
        proof {
            assert(location@ == style_location(i as int));
        }
        let id_location = sub_field(&location, "id");
        let ghost id_where = id_location@;
        if trimmed.len() == 0 {
            push_error(report, id_location.clone(), owned("style ID cannot be empty"));
            proof {
                assert(report.errors@[report.errors@.len() - 1].location@ == id_where);
            }
        }
        let ghost after_blank = report.errors@.len();
        let ghost errors_after_blank = report.errors@;
        let mut j: usize = 0;
        let mut duplicate = false;
        while j < i
            invariant
                kept(old(report).errors@, report.errors@),
                i < raw_styles@.len(),
                j <= i,
                id_chars@ == raw_styles@[i as int].id@,
                duplicate == exists|k: int| 0 <= k < j && (#[trigger] raw_styles@[k]).id@ == raw_styles@[i as int].id@,
            decreases i - j,
        {
            let other = chars_of(raw_styles[j].id.as_str());
            if chars_equal(&other, &id_chars) {
                duplicate = true;
            }
            j += 1;
        }
        if duplicate {
            push_error(report, id_location, owned("duplicate style ID"));
            proof {
                assert(report.errors@[report.errors@.len() - 1].location@ == id_where);
            }
        }
        let ghost after_dup = report.errors@.len();
        let ghost errors_after_dup = report.errors@;
        let fg_chars = chars_of(raw.fg.as_str());
        let fg = if chars_equal(&fg_chars, &chars_of("transparent")) {
            let fg_loc = sub_field(&location, "fg");
            let fg_msg = owned("foreground transparency is not valid in V1");
            let ghost pushed = ValidationMessage { location: fg_loc, message: fg_msg };
            push_error(report, fg_loc, fg_msg);
            proof {
                assert(report.errors@[report.errors@.len() - 1] == pushed);
                assert(has_error(report.errors@, fg_location(i as int), "foreground transparency is not valid in V1"@));
            }
            None
        } else {
            match Color::parse_hex(raw.fg.as_str()) {
                Some(c) => Some(c),
                None => {
                    let bad_fg_location = sub_field(&location, "fg");
                    let ghost bad_fg_where = bad_fg_location@;
                    push_error(report, bad_fg_location, owned("invalid #RRGGBB color"));
                    proof {
                        assert(report.errors@[report.errors@.len() - 1].location@ == bad_fg_where);
                    }
                    None
                },
            }
        };
        let ghost after_fg = report.errors@.len();
        let ghost errors_after_fg = report.errors@;
        let bg: Option<Option<Color>> = match &raw.bg {
            None => Some(None),
            Some(b) => {
                if chars_equal(&chars_of(b.as_str()), &chars_of("transparent")) {
                    Some(None)
                } else {
                    match Color::parse_hex(b.as_str()) {
                        Some(c) => Some(Some(c)),
                        None => {
                            let bg_location = sub_field(&location, "bg");
                            let ghost bg_where = bg_location@;
                            push_error(report, bg_location, owned("invalid background color"));
                            proof {
                                assert(report.errors@[report.errors@.len() - 1].location@ == bg_where);
                            }
                            None
                        },
                    }
                }
            },
        };
        let ghost after_bg = report.errors@.len();
        let ghost errors_after_bg = report.errors@;
        let attrs_location = sub_field(&location, "attrs");
        let mut attrs: Vec<TextAttr> = Vec::new();
        let mut k: usize = 0;
        while k < raw.attrs.len()
            invariant
                kept(old(report).errors@, report.errors@),
                kept(errors_after_fg, report.errors@),
                kept(errors_after_bg, report.errors@),
                i < raw_styles@.len(),
                *raw == raw_styles@[i as int],
                k <= raw.attrs@.len(),
                after_bg <= report.errors@.len(),
                report.warnings == old(report).warnings,
                (report.errors@.len() == after_bg) == (forall|m: int| 0 <= m < k ==> (#[trigger] attr_from_name(raw.attrs@[m]@)) is Some),
                report.errors@.len() == after_bg ==> attrs@ == raw.attrs@.take(k as int).map_values(|a: String| attr_from_name(a@).unwrap()),
                attrs_location@ == style_location(i as int) + "."@ + "attrs"@,
                forall|m: int|
                    0 <= m < k && (#[trigger] attr_from_name(raw.attrs@[m]@)) is None ==> has_error(
                        report.errors@,
                        attrs_location@,
                        attr_message(raw.attrs@[m]@),
                    ),
            decreases raw.attrs.len() - k,
        {
            let ghost errors_before_attr = report.errors@;
            match TextAttr::parse(raw.attrs[k].as_str()) {
                Some(a) => {
                    proof {
                        assert(raw.attrs@.take(k + 1).map_values(|a: String| attr_from_name(a@).unwrap())
                            == raw.attrs@.take(k as int).map_values(|a: String| attr_from_name(a@).unwrap()).push(a));
                    }
                    attrs.push(a);
                },
                None => {
                    let mut text = owned("invalid style attribute ");
                    let quoted = str_debug_string(raw.attrs[k].as_str());
                    push_str(&mut text, quoted.as_str());
                    push_error(report, attrs_location.clone(), text);
                    proof {
                        assert(report.errors@[report.errors@.len() - 1].location@ == attrs_location@);
                    }
                },
            }
            proof {
                assert forall|m: int| 0 <= m < k + 1 && (#[trigger] attr_from_name(raw.attrs@[m]@)) is None implies has_error(
                    report.errors@,
                    attrs_location@,
                    attr_message(raw.attrs@[m]@),
                ) by {
                    if m < k {
                        lemma_kept_has(errors_before_attr, report.errors@, attrs_location@, attr_message(raw.attrs@[m]@));
                    }
                }
            }
            k += 1;
        }
        proof {
            assert(raw.attrs@.take(raw.attrs@.len() as int) == raw.attrs@);
            reveal_strlit("transparent");
            assert(before <= after_blank <= after_dup <= after_fg <= after_bg <= report.errors@.len());
            if report.errors@.len() == before {
                assert(!is_blank(raw.id@));
                assert forall|m: int| 0 <= m < i implies (#[trigger] raw_styles@[m]).id@ != raw_styles@[i as int].id@ by {
                    if raw_styles@[m].id@ == raw_styles@[i as int].id@ {
                        assert(exists|q: int| 0 <= q < i && (#[trigger] raw_styles@[q]).id@ == raw_styles@[i as int].id@);
                    }
                }
                assert(raw_style_ok(raw_styles@, i as int));
            }
            if raw_style_ok(raw_styles@, i as int) {
                assert(!duplicate);
            }
            lemma_kept_trans(errors_at_start, errors_after_fg, report.errors@);
            lemma_fg_errors_kept(raw_styles@, i as int, errors_at_start, report.errors@);
            if raw.fg@ == "transparent"@ {
                lemma_kept_has(errors_after_fg, report.errors@, fg_location(i as int), "foreground transparency is not valid in V1"@);
            }
            assert(fg_errors(raw_styles@, i + 1, report.errors@));
            lemma_styles_reported_kept(raw_styles@, i as int, errors_at_start, report.errors@);
            if raw_styles@.len() > MAX_STYLES {
                lemma_kept_has(errors_at_start, report.errors@, "styles"@, style_count_message(raw_styles@.len()));
            }
            let loc = style_location(i as int);
            lemma_kept_trans(errors_after_blank, errors_after_fg, report.errors@);
            lemma_kept_trans(errors_after_dup, errors_after_fg, report.errors@);
            if is_blank(raw.id@) {
                lemma_kept_has(errors_after_blank, report.errors@, loc + "."@ + "id"@, "style ID cannot be empty"@);
            }
            if exists|j: int| 0 <= j < raw_styles@.take(i as int).len() && (#[trigger] raw_styles@.take(i as int)[j]).id@ == raw.id@ {
                let j = choose|j: int| 0 <= j < raw_styles@.take(i as int).len() && (#[trigger] raw_styles@.take(i as int)[j]).id@ == raw.id@;
                assert(raw_styles@.take(i as int)[j] == raw_styles@[j]);
                lemma_kept_has(errors_after_dup, report.errors@, loc + "."@ + "id"@, "duplicate style ID"@);
            }
            if raw.fg@ != "transparent"@ && spec_parse_hex(raw.fg@) is None {
                lemma_kept_has(errors_after_fg, report.errors@, loc + "."@ + "fg"@, "invalid #RRGGBB color"@);
            }
            if !bg_ok(raw.bg) {
                lemma_kept_has(errors_after_bg, report.errors@, loc + "."@ + "bg"@, "invalid background color"@);
            }
            assert(style_reported(i as int, raw_styles@[i as int], raw_styles@.take(i as int), report.errors@));
            assert(styles_reported(raw_styles@, i + 1, report.errors@));
        }
        match (fg, bg) {
            (Some(fg), Some(bg)) => {
                let style = TerminalStyle {
                    id: raw.id.clone(),
                    fg,
                    bg,
                    attrs,
                    role: clone_opt_string(&raw.role),
                };
                styles.push(style);
            },
            _ => {},
        }
        i += 1;
    }
    if report.errors.len() == 0 {
        Some(styles)
    } else {
        None
    }
}

// ---------------------------------------------------------------------------
// Frames

/// The most cell writes (run characters plus explicit cells, before later
/// writes override earlier ones) one frame may make:
/// `max(150_000, 4 * width * height)`, capped at 600 000.
pub open spec fn spec_max_expanded_writes(width: u16, height: u16) -> int {
    let area4 = 4 * (width as int) * (height as int);
    let m = if area4 > 150_000 { area4 } else { 150_000 };
    if m < 600_000 { m } else { 600_000 }
}

/// What the report says of a frame that writes more cells than it may.
pub open spec fn writes_message(max_writes: int) -> Seq<char> {
    "expanded writes per frame exceeds maximum "@ + decimal_text(max_writes as nat)
}

/// The most cell writes one frame of a `width` by `height` canvas may make.
pub fn max_expanded_writes_per_frame(width: u16, height: u16) -> (r: usize)
    ensures
        r == spec_max_expanded_writes(width, height),
{
    proof {
        assert((width as int) * (height as int) <= 65535 * 65535) by (nonlinear_arith)
            requires width <= 65535, height <= 65535;
        assert(4 * (width as int) * (height as int) == 4 * ((width as int) * (height as int))) by (nonlinear_arith);
    }
    let area = (width as u64) * (height as u64);
    let area4 = area * 4;
    let m = if area4 > 150_000 { area4 } else { 150_000 };
    let capped = if m < 600_000 { m } else { 600_000 };
    capped as usize
}

/// A run that starts inside the canvas, names a known style, holds only V1
/// characters and ends inside its row.
pub open spec fn run_ok(run: RawRun, width: u16, height: u16, ids: Seq<Seq<char>>) -> bool {
    &&& coordinate_ok(run.x, run.y, width, height)
    &&& style_lookup(ids, run.style@) is Some
    &&& forall|k: int| 0 <= k < run.text@.len() ==> spec_is_valid_v1_character(#[trigger] run.text@[k])
    &&& run.text@.len() <= u16::MAX
    &&& run.x + run.text@.len() <= width
}

/// A cell inside the canvas, naming a known style, holding exactly one V1
/// character.
pub open spec fn cell_ok(cell: RawCell, width: u16, height: u16, ids: Seq<Seq<char>>) -> bool {
    &&& coordinate_ok(cell.x, cell.y, width, height)
    &&& style_lookup(ids, cell.style@) is Some
    &&& cell.ch@.len() == 1
    &&& spec_is_valid_v1_character(cell.ch@[0])
}

/// The characters the runs write, counted before overriding.
pub open spec fn run_chars_total(runs: Seq<RawRun>) -> int
    decreases runs.len(),
{
    if runs.len() == 0 {
        0
    } else {
        run_chars_total(runs.drop_last()) + runs.last().text@.len()
    }
}

/// A frame ID, when present, is not blank and not used by an earlier frame.
pub open spec fn frame_id_ok(id: Option<String>, earlier: Seq<RawFrame>) -> bool {
    id matches Some(s) ==> {
        &&& !is_blank(s@)
        &&& forall|j: int| 0 <= j < earlier.len() ==> !((#[trigger] earlier[j]).id matches Some(o) && o@ == s@)
    }
}

/// The frame at index `i` is acceptable on its own.
pub open spec fn raw_frame_ok(frames: Seq<RawFrame>, i: int, width: u16, height: u16, ids: Seq<Seq<char>>) -> bool {
    let f = frames[i];
    &&& f.runs@.len() <= MAX_RUNS_PER_FRAME
    &&& f.cells@.len() <= MAX_EXPLICIT_CELLS_PER_FRAME
    &&& frame_id_ok(f.id, frames.take(i))
    &&& (f.duration_ms matches Some(d) ==> d > 0)
    &&& forall|k: int| 0 <= k < f.runs@.len() ==> #[trigger] run_ok(f.runs@[k], width, height, ids)
    &&& forall|k: int| 0 <= k < f.cells@.len() ==> #[trigger] cell_ok(f.cells@[k], width, height, ids)
    &&& run_chars_total(f.runs@) + f.cells@.len() <= spec_max_expanded_writes(width, height)
}

/// `text` written rightward from `(x, y)` over `m`.
pub open spec fn paint_text(m: Map<CellKey, PaintedCell>, y: u16, x: int, text: Seq<char>, style_index: usize) -> Map<CellKey, PaintedCell>
    decreases text.len(),
{
    if text.len() == 0 {
        m
    } else {
        paint_text(m, y, x, text.drop_last(), style_index).insert(
            (y, (x + text.len() - 1) as u16),
            painted(text.last(), style_index),
        )
    }
}

/// The runs written over `m` in file order.
pub open spec fn paint_runs(m: Map<CellKey, PaintedCell>, runs: Seq<RawRun>, ids: Seq<Seq<char>>) -> Map<CellKey, PaintedCell>
    decreases runs.len(),
{
    if runs.len() == 0 {
        m
    } else {
        let r = runs.last();
        paint_text(
            paint_runs(m, runs.drop_last(), ids),
            r.y as u16,
            r.x as int,
            r.text@,
            style_lookup(ids, r.style@).unwrap() as usize,
        )
    }
}

/// The explicit cells written over `m` in file order.
pub open spec fn paint_cells(m: Map<CellKey, PaintedCell>, cells: Seq<RawCell>, ids: Seq<Seq<char>>) -> Map<CellKey, PaintedCell>
    decreases cells.len(),
{
    if cells.len() == 0 {
        m
    } else {
        let c = cells.last();
        paint_cells(m, cells.drop_last(), ids).insert(
            (c.y as u16, c.x as u16),
            painted(c.ch@[0], style_lookup(ids, c.style@).unwrap() as usize),
        )
    }
}

/// The painted cells of a frame: a transparent canvas, then its runs, then
/// its cells, later writes overriding earlier ones.
pub open spec fn compose_frame(f: RawFrame, ids: Seq<Seq<char>>) -> Map<CellKey, PaintedCell> {
    paint_cells(paint_runs(Map::empty(), f.runs@, ids), f.cells@, ids)
}

/// The painted cells of all frames, after composition.
pub open spec fn total_composed_cells(frames: Seq<RawFrame>, ids: Seq<Seq<char>>) -> int
    decreases frames.len(),
{
    if frames.len() == 0 {
        0
    } else {
        total_composed_cells(frames.drop_last(), ids) + compose_frame(frames.last(), ids).len()
    }
}

/// Every frame is acceptable and the composed frames stay within the
/// all-frames cell limit.
pub open spec fn frames_ok(frames: Seq<RawFrame>, width: u16, height: u16, ids: Seq<Seq<char>>) -> bool {
    &&& forall|i: int| 0 <= i < frames.len() ==> #[trigger] raw_frame_ok(frames, i, width, height, ids)
    &&& total_composed_cells(frames, ids) <= MAX_EXPANDED_CELLS_ALL_FRAMES
}

/// `f` is the frame that the valid raw frame `raw` stands for.
pub open spec fn frame_from_raw(f: Frame, raw: RawFrame, default_duration_ms: u64, ids: Seq<Seq<char>>) -> bool {
    &&& f.id == raw.id
    &&& f.duration_ms == match raw.duration_ms {
        Some(d) => d as u64,
        None => default_duration_ms,
    }
    &&& f.cells@ == compose_frame(raw, ids)
}

/// Reads the characters of a run's text, recording an error for each one
/// that is not a V1 character.
fn run_characters(report: &mut ValidationReport, run_location: &String, text: &String) -> (r: Vec<char>)
    ensures
        kept(old(report).errors@, final(report).errors@),
        r@ == text@,
        old(report).errors@.len() <= final(report).errors@.len(),
        (final(report).errors@.len() == old(report).errors@.len()) == (forall|k: int|
            0 <= k < text@.len() ==> spec_is_valid_v1_character(#[trigger] text@[k])),
        final(report).warnings == old(report).warnings,
        chars_reported(run_location@, text@, text@.len() as int, final(report).errors@),
{
    let chars = chars_of(text.as_str());
    let mut k: usize = 0;
    while k < chars.len()
        invariant
            kept(old(report).errors@, report.errors@),
            chars@ == text@,
            k <= chars@.len(),
            old(report).errors@.len() <= report.errors@.len(),
            report.warnings == old(report).warnings,
            (report.errors@.len() == old(report).errors@.len()) == (forall|m: int|
                0 <= m < k ==> spec_is_valid_v1_character(#[trigger] text@[m])),
            chars_reported(run_location@, text@, k as int, report.errors@),
        decreases chars.len() - k,
    {
        let ghost errors_before = report.errors@;
        if !is_valid_v1_character(chars[k]) {
            let mut t = owned("invalid V1 terminal character ");
            let quoted = crate::text::char_debug_string(chars[k]);
            push_str(&mut t, quoted.as_str());
            let loc = sub_field(run_location, "text");
            let loc2 = indexed(loc.as_str(), k);
            let ghost where_at = loc2@;
            push_error(report, loc2, t);
            proof {
                assert(report.errors@[report.errors@.len() - 1].location@ == where_at);
                assert(has_error(report.errors@, run_char_location(run_location@, k as int), invalid_char_message(text@[k as int])));
            }
        }
        proof {
            lemma_chars_reported_kept(run_location@, text@, k as int, errors_before, report.errors@);
        }
        k += 1;
    }
    chars
}

/// What the report says of a character outside the V1 set.
pub open spec fn invalid_char_message(c: char) -> Seq<char> {
    "invalid V1 terminal character "@ + char_debug_text(c)
}

/// Where the character at `k` of a run's text is reported.
pub open spec fn run_char_location(run_location: Seq<char>, k: int) -> Seq<char> {
    run_location + "."@ + "text"@ + "["@ + decimal_text(k as nat) + "]"@
}

/// Each of the first `n` characters of `text` outside the V1 set is
/// reported in `s`.
pub open spec fn chars_reported(run_location: Seq<char>, text: Seq<char>, n: int, s: Seq<ValidationMessage>) -> bool {
    forall|k: int|
        0 <= k < n && !spec_is_valid_v1_character(#[trigger] text[k]) ==> has_error(
            s,
            run_char_location(run_location, k),
            invalid_char_message(text[k]),
        )
}

/// Character reports stay when messages are only added.
proof fn lemma_chars_reported_kept(run_location: Seq<char>, text: Seq<char>, n: int, o: Seq<ValidationMessage>, f: Seq<ValidationMessage>)
    requires
        kept(o, f),
        chars_reported(run_location, text, n, o),
    ensures
        chars_reported(run_location, text, n, f),
{
    assert forall|k: int| 0 <= k < n && !spec_is_valid_v1_character(#[trigger] text[k]) implies has_error(
        f,
        run_char_location(run_location, k),
        invalid_char_message(text[k]),
    ) by {
        lemma_kept_has(o, f, run_char_location(run_location, k), invalid_char_message(text[k]));
    }
}

proof fn lemma_run_chars_total_step(runs: Seq<RawRun>, r: int)
    requires
        0 <= r < runs.len(),
    ensures
        run_chars_total(runs.take(r + 1)) == run_chars_total(runs.take(r)) + runs[r].text@.len(),
{
    assert(runs.take(r + 1).drop_last() == runs.take(r));
}

proof fn lemma_run_chars_total_nonneg(runs: Seq<RawRun>)
    ensures
        run_chars_total(runs) >= 0,
    decreases runs.len(),
{
    if runs.len() > 0 {
        lemma_run_chars_total_nonneg(runs.drop_last());
    }
}

proof fn lemma_run_chars_total_mono(runs: Seq<RawRun>, a: int, b: int)
    requires
        0 <= a <= b <= runs.len(),
    ensures
        run_chars_total(runs.take(a)) <= run_chars_total(runs.take(b)),
    decreases b - a,
{
    if a < b {
        lemma_run_chars_total_step(runs, b - 1);
        lemma_run_chars_total_mono(runs, a, b - 1);
    }
}

/// Validates and composes the runs of one frame onto `cells`.
fn validate_runs(
    report: &mut ValidationReport,
    frame_location: &String,
    runs: &Vec<RawRun>,
    width: u16,
    height: u16,
    style_ids: &Vec<Vec<char>>,
    cells: &mut CellMap,
    expanded_writes: &mut usize,
    max_writes: usize,
)
    requires
        *old(expanded_writes) == 0,
        old(cells)@ == Map::<CellKey, PaintedCell>::empty(),
        max_writes == spec_max_expanded_writes(width, height),
    ensures
        kept(old(report).errors@, final(report).errors@),
        old(report).errors@.len() <= final(report).errors@.len(),
        (final(report).errors@.len() == old(report).errors@.len()) == (
            (forall|k: int| 0 <= k < runs@.len() ==> #[trigger] run_ok(runs@[k], width, height, seq_of_ids(style_ids@)))
            && run_chars_total(runs@) <= max_writes),
        final(report).errors@.len() == old(report).errors@.len() ==> {
            &&& *final(expanded_writes) == run_chars_total(runs@)
            &&& final(cells)@ == paint_runs(Map::empty(), runs@, seq_of_ids(style_ids@))
        },
        final(report).warnings == old(report).warnings,
        edge_errors(frame_location@, runs@, runs@.len() as int, width, height, seq_of_ids(style_ids@), final(report).errors@),
        runs_reported(frame_location@, runs@, runs@.len() as int, width, height, seq_of_ids(style_ids@), final(report).errors@),
        (forall|k: int| 0 <= k < runs@.len() ==> #[trigger] run_ok(runs@[k], width, height, seq_of_ids(style_ids@)))
            && run_chars_total(runs@) > max_writes ==> has_error(final(report).errors@, frame_location@, writes_message(max_writes as int)),
{
    let ghost ids = seq_of_ids(style_ids@);
    let ghost start = report.errors@.len();
    let mut r: usize = 0;
    proof {
        assert(runs@.take(0).len() == 0);
    }
    while r < runs.len()
        invariant
            kept(old(report).errors@, report.errors@),
            edge_errors(frame_location@, runs@, r as int, width, height, ids, report.errors@),
            runs_reported(frame_location@, runs@, r as int, width, height, ids, report.errors@),
            (forall|k: int| 0 <= k < r ==> #[trigger] run_ok(runs@[k], width, height, ids)) && run_chars_total(runs@.take(r as int))
                > max_writes ==> has_error(report.errors@, frame_location@, writes_message(max_writes as int)),
            r <= runs@.len(),
            ids == seq_of_ids(style_ids@),
            max_writes == spec_max_expanded_writes(width, height),
            max_writes <= 600_000,
            start == old(report).errors@.len(),
            start <= report.errors@.len(),
            report.warnings == old(report).warnings,
            (report.errors@.len() == start) == (
                (forall|k: int| 0 <= k < r ==> #[trigger] run_ok(runs@[k], width, height, ids))
                && run_chars_total(runs@.take(r as int)) <= max_writes),
            report.errors@.len() == start ==> {
                &&& *expanded_writes == run_chars_total(runs@.take(r as int))
                &&& cells@ == paint_runs(Map::empty(), runs@.take(r as int), ids)
            },
        decreases runs.len() - r,
    {
        let ghost before = report.errors@.len();
        let ghost errors_at_start = report.errors@;
        let ghost writes_before = *expanded_writes;
        let ghost cells_before = cells@;
        proof {
            lemma_run_chars_total_step(runs@, r as int);
            assert(runs@.take(r + 1).drop_last() == runs@.take(r as int));
            assert(runs@.take(r + 1).last() == runs@[r as int]);
            lemma_run_chars_total_nonneg(runs@.take(r as int));
        }
        let run = &runs[r];
        let run_location = sub_indexed(frame_location, "runs", r);
        proof {
            assert(run_location@ == crate::validate::run_location(frame_location@, r as int));
        }
        let coordinate = validate_coordinate(report, &run_location, run.x, run.y, width, height);
        match coordinate {
            None => {
                assert(!run_ok(runs@[r as int], width, height, ids));
                proof {
                    lemma_edge_step(frame_location@, runs@, r as int, width, height, ids, errors_at_start, report.errors@);
                    lemma_runs_reported_kept(frame_location@, runs@, r as int, width, height, ids, errors_at_start, report.errors@);
                    assert(run_reported(run_location@, runs@[r as int], width, height, ids, report.errors@));
                }
                r += 1;
                continue;
            },
            Some(_) => {},
        }
        let (x, y) = coordinate.unwrap();
        let ghost errors_at_style = report.errors@;
        let style_index = resolve_style(report, sub_field(&run_location, "style"), &run.style, style_ids);
        match style_index {
            None => {
                assert(!run_ok(runs@[r as int], width, height, ids));
                proof {
                    lemma_edge_step(frame_location@, runs@, r as int, width, height, ids, errors_at_start, report.errors@);
                    lemma_runs_reported_kept(frame_location@, runs@, r as int, width, height, ids, errors_at_start, report.errors@);
                    assert(run_reported(run_location@, runs@[r as int], width, height, ids, report.errors@));
                }
                r += 1;
                continue;
            },
            Some(_) => {},
        }
        let style_index = style_index.unwrap();
        let ghost after_style = report.errors@.len();
        let run_chars = run_characters(report, &run_location, &run.text);
        let ghost after_chars = report.errors@.len();
        let ghost errors_after_chars = report.errors@;
        proof {
            lemma_kept_trans(errors_at_start, errors_at_style, errors_after_chars);
            lemma_runs_reported_kept(frame_location@, runs@, r as int, width, height, ids, errors_at_start, errors_after_chars);
        }
        if run_chars.len() > 65535 {
            let long_location = sub_field(&run_location, "text");
            let ghost long_where = long_location@;
            push_error(report, long_location, owned("run text is too long"));
            assert(!run_ok(runs@[r as int], width, height, ids));
            proof {
                assert(report.errors@[report.errors@.len() - 1].location@ == long_where);
                lemma_edge_step(frame_location@, runs@, r as int, width, height, ids, errors_at_start, report.errors@);
                lemma_runs_reported_kept(frame_location@, runs@, r as int, width, height, ids, errors_after_chars, report.errors@);
                lemma_chars_reported_kept(run_location@, run.text@, run.text@.len() as int, errors_after_chars, report.errors@);
                assert(run_reported(run_location@, runs@[r as int], width, height, ids, report.errors@));
            }
            r += 1;
            continue;
        }
        proof {
            assert(run_reported(run_location@, runs@[r as int], width, height, ids, errors_after_chars));
        }
        let run_len = run_chars.len() as u16;
        if (x as u32) + (run_len as u32) > (width as u32) {
            let location = sub_field(&run_location, "text");
            let text = owned("run text extends outside the canvas");
            proof {
                lemma_pushed_has(report.errors@, ValidationMessage { location: location, message: text });
                lemma_edge_errors_kept(frame_location@, runs@, r as int, width, height, ids, errors_at_start, report.errors@);
            }
            push_error(report, location, text);
            proof {
                lemma_edge_errors_kept(frame_location@, runs@, r as int, width, height, ids, errors_at_start, report.errors@);
                assert(run_text_location(frame_location@, r as int) == location@);
                assert(edge_errors(frame_location@, runs@, r + 1, width, height, ids, report.errors@));
                lemma_runs_reported_kept(frame_location@, runs@, r + 1, width, height, ids, errors_after_chars, report.errors@);
            }
            assert(!run_ok(runs@[r as int], width, height, ids));
            r += 1;
            continue;
        }
        *expanded_writes = (*expanded_writes).saturating_add(run_chars.len());
        if *expanded_writes > max_writes {
            let writes_text = with_number("expanded writes per frame exceeds maximum ", max_writes as u64, "");
            proof {
                reveal_strlit("");
                assert(writes_text@ =~= writes_message(max_writes as int));
            }
            push_error(report, frame_location.clone(), writes_text);
            proof {
                assert(report.errors@[report.errors@.len() - 1].location@ == frame_location@);
                assert(has_error(report.errors@, frame_location@, writes_message(max_writes as int)));
                if before == start {
                    assert(run_chars_total(runs@.take(r + 1)) > max_writes);
                }
                lemma_edge_step(frame_location@, runs@, r as int, width, height, ids, errors_at_start, report.errors@);
                lemma_runs_reported_kept(frame_location@, runs@, r + 1, width, height, ids, errors_after_chars, report.errors@);
            }
            r += 1;
            continue;
        }
        let cell_style = style_index;
        let ghost base = cells@;
        let mut offset: usize = 0;
        while offset < run_chars.len()
            invariant
                kept(old(report).errors@, report.errors@),
                offset <= run_chars@.len(),
                run_chars@.len() <= 65535,
                x + run_chars@.len() <= width,
                cells@ == paint_text(base, y, x as int, run_chars@.take(offset as int), cell_style),
            decreases run_chars.len() - offset,
        {
            proof {
                assert(run_chars@.take(offset + 1).drop_last() == run_chars@.take(offset as int));
                assert(run_chars@.take(offset + 1).last() == run_chars@[offset as int]);
            }
            let cell_x = x + (offset as u16);
            cells.insert((y, cell_x), PaintedCell { ch: run_chars[offset], style_index: cell_style });
            offset += 1;
        }
        proof {
            assert(run_chars@.take(run_chars@.len() as int) == run_chars@);
            assert(coordinate_ok(run.x, run.y, width, height));
            lemma_edge_step(frame_location@, runs@, r as int, width, height, ids, errors_at_start, report.errors@);
            assert(after_chars == report.errors@.len());
            lemma_runs_reported_kept(frame_location@, runs@, r + 1, width, height, ids, errors_after_chars, report.errors@);
            if before == start {
                assert(*expanded_writes == run_chars_total(runs@.take(r + 1)));
            }
            if (forall|k: int| 0 <= k < r + 1 ==> #[trigger] run_ok(runs@[k], width, height, ids))
                && run_chars_total(runs@.take(r + 1)) <= max_writes {
                assert(run_ok(runs@[r as int], width, height, ids));
                assert(before == start);
            }
            if has_error(errors_at_start, frame_location@, writes_message(max_writes as int)) {
                lemma_kept_has(errors_at_start, report.errors@, frame_location@, writes_message(max_writes as int));
            }
            if report.errors@.len() == start {
                lemma_style_lookup_bound(ids, run.style@);
                assert(run_ok(runs@[r as int], width, height, ids));
                assert(paint_runs(Map::empty(), runs@.take(r + 1), ids) == paint_text(
                    paint_runs(Map::empty(), runs@.take(r as int), ids), y, x as int, run.text@, cell_style));
            }
        }
        r += 1;
    }
    proof {
        assert(runs@.take(runs@.len() as int) == runs@);
    }
}

/// Validates and composes the explicit cells of one frame onto `cells`.
fn validate_cells(
    report: &mut ValidationReport,
    frame_location: &String,
    raw_cells: &Vec<RawCell>,
    width: u16,
    height: u16,
    style_ids: &Vec<Vec<char>>,
    cells: &mut CellMap,
    expanded_writes: &mut usize,
    max_writes: usize,
)
    requires
        max_writes == spec_max_expanded_writes(width, height),
    ensures
        kept(old(report).errors@, final(report).errors@),
        old(report).errors@.len() <= final(report).errors@.len(),
        final(report).warnings == old(report).warnings,
        *old(expanded_writes) <= max_writes ==> {
            &&& (final(report).errors@.len() == old(report).errors@.len()) == (
                (forall|k: int| 0 <= k < raw_cells@.len() ==> #[trigger] cell_ok(raw_cells@[k], width, height, seq_of_ids(style_ids@)))
                && *old(expanded_writes) + raw_cells@.len() <= max_writes)
            &&& final(report).errors@.len() == old(report).errors@.len() ==> {
                &&& *final(expanded_writes) == *old(expanded_writes) + raw_cells@.len()
                &&& final(cells)@ == paint_cells(old(cells)@, raw_cells@, seq_of_ids(style_ids@))
            }
        },
        cells_reported(frame_location@, raw_cells@, raw_cells@.len() as int, width, height, seq_of_ids(style_ids@), final(report).errors@),
        *old(expanded_writes) <= max_writes && (forall|k: int|
            0 <= k < raw_cells@.len() ==> #[trigger] cell_ok(raw_cells@[k], width, height, seq_of_ids(style_ids@)))
            && *old(expanded_writes) + raw_cells@.len() > max_writes ==> has_error(
            final(report).errors@,
            frame_location@,
            writes_message(max_writes as int),
        ),
{
    let ghost ids = seq_of_ids(style_ids@);
    let ghost start = report.errors@.len();
    let ghost w0 = *expanded_writes;
    let ghost m0 = cells@;
    let mut c: usize = 0;
    proof {
        assert(raw_cells@.take(0) == Seq::<RawCell>::empty());
    }
    while c < raw_cells.len()
        invariant
            kept(old(report).errors@, report.errors@),
            c <= raw_cells@.len(),
            ids == seq_of_ids(style_ids@),
            max_writes == spec_max_expanded_writes(width, height),
            max_writes <= 600_000,
            start == old(report).errors@.len(),
            w0 == *old(expanded_writes),
            m0 == old(cells)@,
            start <= report.errors@.len(),
            report.warnings == old(report).warnings,
            w0 <= max_writes ==> (report.errors@.len() == start) == (
                (forall|k: int| 0 <= k < c ==> #[trigger] cell_ok(raw_cells@[k], width, height, ids))
                && w0 + c <= max_writes),
            report.errors@.len() == start ==> {
                &&& *expanded_writes == w0 + c
                &&& cells@ == paint_cells(m0, raw_cells@.take(c as int), ids)
            },
            cells_reported(frame_location@, raw_cells@, c as int, width, height, ids, report.errors@),
            w0 <= max_writes && (forall|k: int| 0 <= k < c ==> #[trigger] cell_ok(raw_cells@[k], width, height, ids)) && w0 + c
                > max_writes ==> has_error(report.errors@, frame_location@, writes_message(max_writes as int)),
        decreases raw_cells.len() - c,
    {
        let ghost before = report.errors@.len();
        let ghost errors_at_start = report.errors@;
        proof {
            assert(raw_cells@.take(c + 1).drop_last() == raw_cells@.take(c as int));
            assert(raw_cells@.take(c + 1).last() == raw_cells@[c as int]);
        }
        let raw = &raw_cells[c];
        let cell_location = sub_indexed(frame_location, "cells", c);
        proof {
            assert(cell_location@ == crate::validate::cell_location(frame_location@, c as int));
        }
        let coordinate = validate_coordinate(report, &cell_location, raw.x, raw.y, width, height);
        match coordinate {
            None => {
                assert(!cell_ok(raw_cells@[c as int], width, height, ids));
                proof {
                    lemma_cells_reported_kept(frame_location@, raw_cells@, c as int, width, height, ids, errors_at_start, report.errors@);
                    assert(cell_reported(cell_location@, raw_cells@[c as int], width, height, ids, report.errors@));
                }
                c += 1;
                continue;
            },
            Some(_) => {},
        }
        let (x, y) = coordinate.unwrap();
        let style_index = resolve_style(report, sub_field(&cell_location, "style"), &raw.style, style_ids);
        match style_index {
            None => {
                assert(!cell_ok(raw_cells@[c as int], width, height, ids));
                proof {
                    lemma_cells_reported_kept(frame_location@, raw_cells@, c as int, width, height, ids, errors_at_start, report.errors@);
                    assert(cell_reported(cell_location@, raw_cells@[c as int], width, height, ids, report.errors@));
                }
                c += 1;
                continue;
            },
            Some(_) => {},
        }
        let style_index = style_index.unwrap();
        let chars = chars_of(raw.ch.as_str());
        let ghost errors_at_ch = report.errors@;
        proof {
            lemma_cells_reported_kept(frame_location@, raw_cells@, c as int, width, height, ids, errors_at_start, errors_at_ch);
        }
        let ch_location = sub_field(&cell_location, "ch");
        let ghost ch_where = ch_location@;
        if chars.len() == 0 {
            push_error(report, ch_location, owned("cell character cannot be empty"));
            assert(!cell_ok(raw_cells@[c as int], width, height, ids));
            proof {
                assert(report.errors@[report.errors@.len() - 1].location@ == ch_where);
                lemma_cells_reported_kept(frame_location@, raw_cells@, c as int, width, height, ids, errors_at_ch, report.errors@);
                assert(cell_reported(cell_location@, raw_cells@[c as int], width, height, ids, report.errors@));
            }
            c += 1;
            continue;
        }
        if chars.len() > 1 {
            push_error(report, ch_location, owned("cell character must contain exactly one Unicode scalar value"));
            assert(!cell_ok(raw_cells@[c as int], width, height, ids));
            proof {
                assert(report.errors@[report.errors@.len() - 1].location@ == ch_where);
                lemma_cells_reported_kept(frame_location@, raw_cells@, c as int, width, height, ids, errors_at_ch, report.errors@);
                assert(cell_reported(cell_location@, raw_cells@[c as int], width, height, ids, report.errors@));
            }
            c += 1;
            continue;
        }
        let ch = chars[0];
        if !is_valid_v1_character(ch) {
            let mut t = owned("invalid V1 terminal character ");
            let quoted = crate::text::char_debug_string(ch);
            push_str(&mut t, quoted.as_str());
            push_error(report, ch_location, t);
            assert(!cell_ok(raw_cells@[c as int], width, height, ids));
            proof {
                assert(report.errors@[report.errors@.len() - 1].location@ == ch_where);
                lemma_cells_reported_kept(frame_location@, raw_cells@, c as int, width, height, ids, errors_at_ch, report.errors@);
                assert(cell_reported(cell_location@, raw_cells@[c as int], width, height, ids, report.errors@));
            }
            c += 1;
            continue;
        }
        proof {
            assert(cell_reported(cell_location@, raw_cells@[c as int], width, height, ids, errors_at_ch));
        }
        *expanded_writes = (*expanded_writes).saturating_add(1);
        if *expanded_writes > max_writes {
            let writes_text = with_number("expanded writes per frame exceeds maximum ", max_writes as u64, "");
            proof {
                reveal_strlit("");
                assert(writes_text@ =~= writes_message(max_writes as int));
            }
            push_error(report, frame_location.clone(), writes_text);
            proof {
                assert(report.errors@[report.errors@.len() - 1].location@ == frame_location@);
                assert(has_error(report.errors@, frame_location@, writes_message(max_writes as int)));
                lemma_cells_reported_kept(frame_location@, raw_cells@, c + 1, width, height, ids, errors_at_ch, report.errors@);
            }
            c += 1;
            continue;
        }
        cells.insert((y, x), PaintedCell { ch, style_index });
        proof {
            lemma_style_lookup_bound(ids, raw.style@);
            assert(cell_ok(raw_cells@[c as int], width, height, ids));
            assert(report.errors@ == errors_at_ch);
            if has_error(errors_at_start, frame_location@, writes_message(max_writes as int)) {
                lemma_kept_has(errors_at_start, report.errors@, frame_location@, writes_message(max_writes as int));
            }
        }
        c += 1;
    }
    proof {
        assert(raw_cells@.take(raw_cells@.len() as int) == raw_cells@);
    }
}

/// The ID of a frame, when present, appears on an earlier frame.
pub open spec fn id_used_before(frames: Seq<RawFrame>, i: int, id: Seq<char>) -> bool {
    exists|j: int| 0 <= j < i && ((#[trigger] frames[j]).id matches Some(o) && o@ == id)
}

/// Whether an earlier frame carries the given ID.
fn frame_id_used_before(raw_frames: &Vec<RawFrame>, i: usize, id: &Vec<char>) -> (r: bool)
    requires
        i <= raw_frames@.len(),
    ensures
        r == id_used_before(raw_frames@, i as int, id@),
{
    let mut j: usize = 0;
    while j < i
        invariant
            j <= i <= raw_frames@.len(),
            !id_used_before(raw_frames@, j as int, id@),
        decreases i - j,
    {
        match &raw_frames[j].id {
            Some(o) => {
                let other = chars_of(o.as_str());
                if chars_equal(&other, id) {
                    return true;
                }
            },
            None => {},
        }
        j += 1;
    }
    false
}

proof fn lemma_total_composed_step(frames: Seq<RawFrame>, i: int, ids: Seq<Seq<char>>)
    requires
        0 <= i < frames.len(),
    ensures
        total_composed_cells(frames.take(i + 1), ids) == total_composed_cells(frames.take(i), ids)
            + compose_frame(frames[i], ids).len(),
{
    assert(frames.take(i + 1).drop_last() == frames.take(i));
}

/// Checks each raw frame, composing its runs and cells; the frames come back
/// only when the report holds no error at all.
#[verifier::rlimit(50)]
#[verifier::spinoff_prover]
pub fn validate_frames(
    report: &mut ValidationReport,
    raw_frames: Vec<RawFrame>,
    width: u16,
    height: u16,
    default_duration_ms: u64,
    style_ids: &Vec<Vec<char>>,
) -> (r: Option<Vec<Frame>>)
    ensures
        kept(old(report).errors@, final(report).errors@),
        old(report).errors@.len() <= final(report).errors@.len(),
        (final(report).errors@.len() == old(report).errors@.len()) == frames_ok(raw_frames@, width, height, seq_of_ids(style_ids@)),
        r is Some == (final(report).errors@.len() == 0),
        r matches Some(v) ==> v@.len() == raw_frames@.len() && forall|i: int|
            0 <= i < v@.len() ==> frame_from_raw(#[trigger] v@[i], raw_frames@[i], default_duration_ms, seq_of_ids(style_ids@)),
        r matches Some(v) ==> messages_text(final(report).warnings@) == messages_text(old(report).warnings@) + duration_warnings(v@),
        frames_edge_errors(raw_frames@, raw_frames@.len() as int, width, height, seq_of_ids(style_ids@), final(report).errors@),
        frame_field_errors(raw_frames@, raw_frames@.len() as int, final(report).errors@),
        total_cells_error(raw_frames@, raw_frames@.len() as int, width, height, seq_of_ids(style_ids@), final(report).errors@),
        frames_runs_reported(raw_frames@, raw_frames@.len() as int, width, height, seq_of_ids(style_ids@), final(report).errors@),
        frames_cells_reported(raw_frames@, raw_frames@.len() as int, width, height, seq_of_ids(style_ids@), final(report).errors@),
        frames_writes_reported(raw_frames@, raw_frames@.len() as int, width, height, seq_of_ids(style_ids@), final(report).errors@),
{
    let ghost ids = seq_of_ids(style_ids@);
    let ghost start = report.errors@.len();
    let ghost w0 = messages_text(report.warnings@);
    let mut frames: Vec<Frame> = Vec::new();
    let mut total_expanded_cells: usize = 0;
    let max_writes = max_expanded_writes_per_frame(width, height);
    let mut i: usize = 0;
    proof {
        assert(raw_frames@.take(0) == Seq::<RawFrame>::empty());
    }
    while i < raw_frames.len()
        invariant
            kept(old(report).errors@, report.errors@),
            frames_edge_errors(raw_frames@, i as int, width, height, ids, report.errors@),
            frame_field_errors(raw_frames@, i as int, report.errors@),
            total_cells_error(raw_frames@, i as int, width, height, ids, report.errors@),
            frames_runs_reported(raw_frames@, i as int, width, height, ids, report.errors@),
            frames_cells_reported(raw_frames@, i as int, width, height, ids, report.errors@),
            frames_writes_reported(raw_frames@, i as int, width, height, ids, report.errors@),
            i <= raw_frames@.len(),
            ids == seq_of_ids(style_ids@),
            max_writes == spec_max_expanded_writes(width, height),
            start == old(report).errors@.len(),
            start <= report.errors@.len(),
            (report.errors@.len() == start) == (
                (forall|k: int| 0 <= k < i ==> #[trigger] raw_frame_ok(raw_frames@, k, width, height, ids))
                && total_composed_cells(raw_frames@.take(i as int), ids) <= MAX_EXPANDED_CELLS_ALL_FRAMES),
            report.errors@.len() == start ==> {
                &&& total_expanded_cells == total_composed_cells(raw_frames@.take(i as int), ids)
                &&& frames@.len() == i
                &&& forall|k: int| 0 <= k < i ==> frame_from_raw(#[trigger] frames@[k], raw_frames@[k], default_duration_ms, ids)
                &&& messages_text(report.warnings@) == w0 + duration_warnings(frames@)
            },
        decreases raw_frames.len() - i,
    {
        let ghost before = report.errors@.len();
        let ghost errors_at_start = report.errors@;
        let ghost w_before = messages_text(report.warnings@);
        let raw_frame = &raw_frames[i];
        let frame_location = indexed("frames", i);
        if raw_frame.runs.len() > MAX_RUNS_PER_FRAME {
            let runs_location = sub_field(&frame_location, "runs");
            let ghost runs_where = runs_location@;
            push_error(
                report,
                runs_location,
                with_two_numbers("run count ", raw_frame.runs.len() as u64, " exceeds maximum ", MAX_RUNS_PER_FRAME as u64),
            );
            proof {
                assert(report.errors@[report.errors@.len() - 1].location@ == runs_where);
            }
        }
        let ghost errors_after_runs_count = report.errors@;
        if raw_frame.cells.len() > MAX_EXPLICIT_CELLS_PER_FRAME {
            let cells_location = sub_field(&frame_location, "cells");
            let ghost cells_where = cells_location@;
            push_error(
                report,
                cells_location,
                with_two_numbers("cell count ", raw_frame.cells.len() as u64, " exceeds maximum ", MAX_EXPLICIT_CELLS_PER_FRAME as u64),
            );
            proof {
                assert(report.errors@[report.errors@.len() - 1].location@ == cells_where);
            }
        }
        let ghost errors_after_cells_count = report.errors@;
        let ghost after_counts = report.errors@.len();
        match &raw_frame.id {
            Some(id) => {
                let id_chars = chars_of(id.as_str());
                let trimmed = trim_chars(&id_chars);
                let id_location = sub_field(&frame_location, "id");
                let ghost id_where = id_location@;
                if trimmed.len() == 0 {
                    push_error(report, id_location, owned("frame ID cannot be empty"));
                    proof {
                        assert(report.errors@[report.errors@.len() - 1].location@ == id_where);
                    }
                } else if frame_id_used_before(&raw_frames, i, &id_chars) {
                    push_error(report, id_location, owned("duplicate frame ID"));
                    proof {
                        assert(report.errors@[report.errors@.len() - 1].location@ == id_where);
                    }
                }
            },
            None => {},
        }
        let ghost after_id = report.errors@.len();
        let ghost errors_after_id = report.errors@;
        let duration_ms = match raw_frame.duration_ms {
            Some(value) => validate_positive_u64(report, sub_field(&frame_location, "duration_ms"), value),
            None => Some(default_duration_ms),
        };
        let ghost after_duration = report.errors@.len();
        let ghost errors_after_duration = report.errors@;
        match duration_ms {
            Some(d) => {
                if d < 80 {
                    let location = sub_field(&frame_location, "duration_ms");
                    let text = owned("very fast frame duration below 80 ms");
                    proof {
                        lemma_messages_push(report.warnings@, ValidationMessage { location: location, message: text });
                    }
                    push_warning(report, location, text);
                }
            },
            None => {},
        }
        let ghost w_after_duration = messages_text(report.warnings@);
        let mut cells: CellMap = BTreeMap::new();
        let mut expanded_writes: usize = 0;
        let ghost errors_before_runs = report.errors@;
        validate_runs(report, &frame_location, &raw_frame.runs, width, height, style_ids, &mut cells, &mut expanded_writes, max_writes);
        let ghost errors_after_runs = report.errors@;
        let ghost after_runs = report.errors@.len();
        let ghost writes_after_runs = expanded_writes;
        validate_cells(report, &frame_location, &raw_frame.cells, width, height, style_ids, &mut cells, &mut expanded_writes, max_writes);
        let ghost after_cells = report.errors@.len();
        let ghost errors_after_cells = report.errors@;
        let ghost total_before = total_expanded_cells;
        let ghost errors_before_total = report.errors@;
        total_expanded_cells = total_expanded_cells.saturating_add(cells.len());
        if total_expanded_cells > MAX_EXPANDED_CELLS_ALL_FRAMES {
            let text = with_number("expanded cells across all frames exceeds maximum ", MAX_EXPANDED_CELLS_ALL_FRAMES as u64, "");
            proof {
                reveal_strlit("");
                assert(text@ =~= total_cells_message());
            }
            push_error(report, owned("frames"), text);
            proof {
                assert(report.errors@[report.errors@.len() - 1].message@ == total_cells_message());
                assert(has_error(report.errors@, "frames"@, total_cells_message()));
            }
        }
        proof {
            lemma_total_composed_step(raw_frames@, i as int, ids);
            let f = raw_frames@[i as int];
            assert(start <= before <= after_counts <= after_id <= after_duration <= after_runs <= after_cells <= report.errors@.len());
            let frame_good = raw_frame_ok(raw_frames@, i as int, width, height, ids);
            if after_cells == before {
                assert(f.runs@.len() <= MAX_RUNS_PER_FRAME);
                assert(f.cells@.len() <= MAX_EXPLICIT_CELLS_PER_FRAME);
                assert(writes_after_runs == run_chars_total(f.runs@));
                assert(frame_id_ok(f.id, raw_frames@.take(i as int))) by {
                    if f.id is Some {
                        let id = f.id->0;
                        assert forall|j: int| 0 <= j < raw_frames@.take(i as int).len() implies
                            !((#[trigger] raw_frames@.take(i as int)[j]).id matches Some(o) && o@ == id@) by {
                            assert(raw_frames@.take(i as int)[j] == raw_frames@[j]);
                            if raw_frames@[j].id matches Some(o) && o@ == id@ {
                                assert(id_used_before(raw_frames@, i as int, id@));
                            }
                        }
                    }
                }
                assert(frame_good);
                assert(cells@ == compose_frame(f, ids));
            }
            if frame_good {
                assert(after_counts == before);
                assert(after_id == after_counts) by {
                    if f.id is Some {
                        let id = f.id->0;
                        if id_used_before(raw_frames@, i as int, id@) {
                            let j = choose|j: int| 0 <= j < i && ((#[trigger] raw_frames@[j]).id matches Some(o) && o@ == id@);
                            assert(raw_frames@.take(i as int)[j] == raw_frames@[j]);
                        }
                    }
                }
                assert(after_duration == after_id);
                lemma_run_chars_total_nonneg(f.runs@);
                assert(after_runs == after_duration);
                assert(after_cells == after_runs);
                assert(cells@ == compose_frame(f, ids));
            }
        }
        let ghost frames_before = frames@;
        match duration_ms {
            Some(d) => {
                let frame = Frame { id: clone_opt_string(&raw_frame.id), duration_ms: d, cells };
                frames.push(frame);
            },
            None => {},
        }
        proof {
            if report.errors@.len() == start {
                assert forall|k: int| 0 <= k < i + 1 implies frame_from_raw(#[trigger] frames@[k], raw_frames@[k], default_duration_ms, ids) by {
                }
                assert(frames@.drop_last() =~= frames_before);
                assert(frames@.last().duration_ms == duration_ms.unwrap());
                assert(messages_text(report.warnings@) == w_after_duration);
            }
            lemma_kept_trans(errors_at_start, errors_before_runs, report.errors@);
            lemma_frames_edge_kept(raw_frames@, i as int, width, height, ids, errors_at_start, report.errors@);
            lemma_edge_errors_kept(
                frame_location@,
                raw_frame.runs@,
                raw_frame.runs@.len() as int,
                width,
                height,
                ids,
                errors_after_runs,
                report.errors@,
            );
            assert(frame_location@ == crate::validate::frame_location(i as int));
            assert(frames_edge_errors(raw_frames@, i + 1, width, height, ids, report.errors@));
            lemma_frame_fields_kept(raw_frames@, i as int, errors_at_start, report.errors@);
            lemma_kept_trans(errors_after_id, errors_before_runs, report.errors@);
            lemma_kept_trans(errors_after_duration, errors_before_runs, report.errors@);
            let f = raw_frames@[i as int];
            let loc_id = crate::validate::frame_location(i as int) + "."@ + "id"@;
            let loc_d = crate::validate::frame_location(i as int) + "."@ + "duration_ms"@;
            let loc_r = crate::validate::frame_location(i as int) + "."@ + "runs"@;
            let loc_c = crate::validate::frame_location(i as int) + "."@ + "cells"@;
            let msg_r = "run count "@ + decimal_text(f.runs@.len()) + " exceeds maximum "@ + decimal_text(
                MAX_RUNS_PER_FRAME as nat,
            );
            let msg_c = "cell count "@ + decimal_text(f.cells@.len()) + " exceeds maximum "@ + decimal_text(
                MAX_EXPLICIT_CELLS_PER_FRAME as nat,
            );
            lemma_kept_trans(errors_after_runs_count, errors_before_runs, report.errors@);
            lemma_kept_trans(errors_after_cells_count, errors_before_runs, report.errors@);
            if has_error(errors_after_runs_count, loc_r, msg_r) {
                lemma_kept_has(errors_after_runs_count, report.errors@, loc_r, msg_r);
            }
            if has_error(errors_after_cells_count, loc_c, msg_c) {
                lemma_kept_has(errors_after_cells_count, report.errors@, loc_c, msg_c);
            }
            if has_error(errors_after_id, loc_id, "frame ID cannot be empty"@) {
                lemma_kept_has(errors_after_id, report.errors@, loc_id, "frame ID cannot be empty"@);
            }
            if has_error(errors_after_id, loc_id, "duplicate frame ID"@) {
                lemma_kept_has(errors_after_id, report.errors@, loc_id, "duplicate frame ID"@);
            }
            if has_error(errors_after_duration, loc_d, "must be a positive integer"@) {
                lemma_kept_has(errors_after_duration, report.errors@, loc_d, "must be a positive integer"@);
            }
            assert(frame_field_errors(raw_frames@, i + 1, report.errors@));
            lemma_frames_runs_kept(raw_frames@, i as int, width, height, ids, errors_at_start, report.errors@);
            lemma_runs_reported_kept(
                frame_location@,
                raw_frame.runs@,
                raw_frame.runs@.len() as int,
                width,
                height,
                ids,
                errors_after_runs,
                report.errors@,
            );
            assert(frames_runs_reported(raw_frames@, i + 1, width, height, ids, report.errors@));
            lemma_frames_cells_kept(raw_frames@, i as int, width, height, ids, errors_at_start, report.errors@);
            lemma_cells_reported_kept(
                frame_location@,
                raw_frame.cells@,
                raw_frame.cells@.len() as int,
                width,
                height,
                ids,
                errors_after_cells,
                report.errors@,
            );
            assert(frames_cells_reported(raw_frames@, i + 1, width, height, ids, report.errors@));
            let wm = writes_message(spec_max_expanded_writes(width, height));
            assert forall|k: int| 0 <= k < i && writes_over(#[trigger] raw_frames@[k], width, height, ids) implies has_error(
                report.errors@,
                crate::validate::frame_location(k),
                wm,
            ) by {
                lemma_kept_has(errors_at_start, report.errors@, crate::validate::frame_location(k), wm);
            }
            if has_error(errors_after_runs, frame_location@, wm) {
                lemma_kept_has(errors_after_runs, report.errors@, frame_location@, wm);
            }
            if has_error(errors_after_cells, frame_location@, wm) {
                lemma_kept_has(errors_after_cells, report.errors@, frame_location@, wm);
            }
            assert(frames_writes_reported(raw_frames@, i + 1, width, height, ids, report.errors@));
            if has_error(errors_at_start, "frames"@, total_cells_message()) {
                lemma_kept_has(errors_at_start, report.errors@, "frames"@, total_cells_message());
            }
            assert(total_cells_error(raw_frames@, i + 1, width, height, ids, report.errors@));
        }
        i += 1;
    }
    proof {
        assert(raw_frames@.take(raw_frames@.len() as int) == raw_frames@);
    }
    if report.errors.len() == 0 {
        Some(frames)
    } else {
        None
    }
}

// ---------------------------------------------------------------------------
// Whole documents

/// The `[asset]` table and the frame count are acceptable: the supported
/// schema version, a known kind, positive sizes within the limits, a
/// positive default duration, and a frame count that fits the kind.
pub open spec fn asset_ok(raw: RawProject) -> bool {
    &&& raw.schema_version == SCHEMA_VERSION
    &&& kind_from_name(raw.asset.kind@) is Some
    &&& positive_u16_ok(raw.asset.width, Some(MAX_WIDTH))
    &&& positive_u16_ok(raw.asset.height, Some(MAX_HEIGHT))
    &&& raw.asset.default_frame_duration_ms > 0
    &&& raw.asset.width * raw.asset.height <= MAX_AREA_PER_FRAME
    &&& raw.frames@.len() <= MAX_FRAMES
    &&& match kind_from_name(raw.asset.kind@) {
        Some(AssetKind::Animation) => raw.frames@.len() >= 1,
        _ => raw.frames@.len() == 1,
    }
}

/// The IDs of a list of raw styles.
pub open spec fn raw_style_ids(styles: Seq<RawStyle>) -> Seq<Seq<char>> {
    styles.map_values(|s: RawStyle| s.id@)
}

/// A raw document that validation accepts.
pub open spec fn raw_project_ok(raw: RawProject) -> bool {
    &&& asset_ok(raw)
    &&& layout_ok(raw.layout)
    &&& styles_ok(raw.styles@)
    &&& frames_ok(raw.frames@, raw.asset.width as u16, raw.asset.height as u16, raw_style_ids(raw.styles@))
}

/// `p` is the project that the accepted raw document `raw` stands for.
pub open spec fn project_from_raw(p: Project, raw: RawProject) -> bool {
    let width = raw.asset.width as u16;
    let height = raw.asset.height as u16;
    let duration = raw.asset.default_frame_duration_ms as u64;
    &&& p.asset.name == raw.asset.name
    &&& p.asset.kind == kind_from_name(raw.asset.kind@).unwrap()
    &&& p.asset.width == width
    &&& p.asset.height == height
    &&& p.asset.default_frame_duration_ms == duration
    &&& p.asset.loop_animation == raw.asset.loop_animation
    &&& p.layout == spec_layout(raw.layout, width, height)
    &&& p.styles@.len() == raw.styles@.len()
    &&& forall|i: int| 0 <= i < p.styles@.len() ==> style_from_raw(#[trigger] p.styles@[i], raw.styles@[i])
    &&& p.frames@.len() == raw.frames@.len()
    &&& forall|i: int| 0 <= i < p.frames@.len() ==> frame_from_raw(#[trigger] p.frames@[i], raw.frames@[i], duration, raw_style_ids(raw.styles@))
}

/// A message as plain text: its location and what it says.
pub open spec fn message_text(m: ValidationMessage) -> (Seq<char>, Seq<char>) {
    (m.location@, m.message@)
}

/// Messages as plain text, in order.
pub open spec fn messages_text(ms: Seq<ValidationMessage>) -> Seq<(Seq<char>, Seq<char>)> {
    ms.map_values(|m: ValidationMessage| message_text(m))
}

/// One warning per frame faster than 80 ms, in frame order.
pub open spec fn duration_warnings(frames: Seq<Frame>) -> Seq<(Seq<char>, Seq<char>)>
    decreases frames.len(),
{
    if frames.len() == 0 {
        Seq::empty()
    } else {
        let i = (frames.len() - 1) as nat;
        duration_warnings(frames.drop_last()) + if frames.last().duration_ms < 80 {
            seq![("frames"@ + "["@ + decimal_text(i) + "]"@ + "."@ + "duration_ms"@, "very fast frame duration below 80 ms"@)]
        } else {
            Seq::empty()
        }
    }
}

/// The warnings for a layout minimum larger than the canvas.
pub open spec fn layout_warnings(l: Layout, width: u16, height: u16) -> Seq<(Seq<char>, Seq<char>)> {
    (if l.min_width > width {
        seq![("layout.min_width"@, "layout minimum width is larger than asset width"@)]
    } else {
        Seq::empty()
    }) + (if l.min_height > height {
        seq![("layout.min_height"@, "layout minimum height is larger than asset height"@)]
    } else {
        Seq::empty()
    })
}

/// One warning per empty frame of an animation, in frame order.
pub open spec fn empty_frame_warnings(kind: AssetKind, frames: Seq<Frame>) -> Seq<(Seq<char>, Seq<char>)>
    decreases frames.len(),
{
    if frames.len() == 0 {
        Seq::empty()
    } else {
        empty_frame_warnings(kind, frames.drop_last()) + if kind == AssetKind::Animation && frames.last().cells@.is_empty() {
            seq![("frames"@, "empty animation frame"@)]
        } else {
            Seq::empty()
        }
    }
}

/// Some cell of the frame is painted with style `i`.
pub open spec fn frame_uses(f: Frame, i: int) -> bool {
    exists|k: CellKey| #[trigger] f.cells@.contains_key(k) && f.cells@[k].style_index == i
}

/// Some cell of the first `n` frames is painted with style `i`.
pub open spec fn used_in_first(frames: Seq<Frame>, n: int, i: int) -> bool {
    exists|f: int| 0 <= f < n && #[trigger] frame_uses(frames[f], i)
}

/// One warning per style, among the first `n`, that no cell uses, in
/// style order.
pub open spec fn unused_style_warnings(styles: Seq<TerminalStyle>, frames: Seq<Frame>, n: int) -> Seq<(Seq<char>, Seq<char>)>
    decreases n,
{
    if n <= 0 {
        Seq::empty()
    } else {
        unused_style_warnings(styles, frames, n - 1) + if !used_in_first(frames, frames.len() as int, n - 1) {
            seq![("styles"@ + "["@ + decimal_text((n - 1) as nat) + "]"@, "unused style "@ + str_debug_text(styles[n - 1].id@))]
        } else {
            Seq::empty()
        }
    }
}

/// The warnings an accepted document is loaded with: fast frames, layout
/// minimums beyond the canvas, empty animation frames, then unused styles.
pub open spec fn project_warnings(p: Project) -> Seq<(Seq<char>, Seq<char>)> {
    duration_warnings(p.frames@) + layout_warnings(p.layout, p.asset.width, p.asset.height)
        + empty_frame_warnings(p.asset.kind, p.frames@) + unused_style_warnings(p.styles@, p.frames@, p.styles@.len() as int)
}

/// Pushing a message adds its text at the end.
proof fn lemma_messages_push(ms: Seq<ValidationMessage>, m: ValidationMessage)
    ensures
        messages_text(ms.push(m)) == messages_text(ms).push(message_text(m)),
{
    assert(messages_text(ms.push(m)) =~= messages_text(ms).push(message_text(m)));
}

/// Adds the warnings about empty animation frames and unused styles.
fn add_usage_warnings(report: &mut ValidationReport, kind: AssetKind, styles: &Vec<TerminalStyle>, frames: &Vec<Frame>)
    ensures
        kept(old(report).errors@, final(report).errors@),
        final(report).errors == old(report).errors,
        messages_text(final(report).warnings@) == messages_text(old(report).warnings@) + empty_frame_warnings(kind, frames@)
            + unused_style_warnings(styles@, frames@, styles@.len() as int),
{
    let ghost w0 = messages_text(report.warnings@);
    let mut used: Vec<bool> = Vec::new();
    let mut s: usize = 0;
    while s < styles.len()
        invariant
            s <= styles@.len(),
            used@.len() == s,
            forall|i: int| 0 <= i < s ==> !used@[i],
        decreases styles.len() - s,
    {
        used.push(false);
        s += 1;
    }
    let mut f: usize = 0;
    while f < frames.len()
        invariant
            f <= frames@.len(),
            used@.len() == styles@.len(),
            report.errors == old(report).errors,
            forall|i: int| 0 <= i < used@.len() ==> #[trigger] used@[i] == used_in_first(frames@, f as int, i),
            messages_text(report.warnings@) == w0 + empty_frame_warnings(kind, frames@.take(f as int)),
        decreases frames.len() - f,
    {
        let frame = &frames[f];
        proof {
            assert(frames@.take(f + 1).drop_last() =~= frames@.take(f as int));
            assert(frames@.take(f + 1).last() == frames@[f as int]);
        }
        if kind == AssetKind::Animation && frame.cells.is_empty() {
            let location = owned("frames");
            let text = owned("empty animation frame");
            proof {
                lemma_messages_push(report.warnings@, ValidationMessage { location: location, message: text });
            }
            push_warning(report, location, text);
        }
        let ghost seq0 = vstd::std_specs::btree::spec_btree_map_iter(&frame.cells).remaining();
        let ghost used_before = used@;
        for entry in it: frame.cells.iter()
            invariant
                it.seq() == seq0,
                used@.len() == used_before.len(),
                forall|i: int| 0 <= i < used@.len() ==> #[trigger] used@[i] == (used_before[i] || exists|j: int|
                    0 <= j < it.index() && (*seq0[j].1).style_index == i),
        {
            proof {
                assert(seq0[it.index() as int] == entry);
            }
            let idx = entry.1.style_index;
            if idx < used.len() {
                used.set(idx, true);
            }
            proof {
                assert forall|i: int| 0 <= i < used@.len() implies #[trigger] used@[i] == (used_before[i] || exists|j: int|
                    0 <= j < it.index() + 1 && (*seq0[j].1).style_index == i) by {
                    if used@[i] && !used_before[i] && i == idx {
                        assert((*seq0[it.index() as int].1).style_index == i);
                    }
                }
            }
        }
        proof {
            assert forall|i: int| 0 <= i < used@.len() implies #[trigger] used@[i] == used_in_first(frames@, f + 1, i) by {
                if used@[i] {
                    if used_before[i] {
                        let g = choose|g: int| 0 <= g < f && #[trigger] frame_uses(frames@[g], i);
                        assert(0 <= g < f + 1 && frame_uses(frames@[g], i));
                    } else {
                        let j = choose|j: int| 0 <= j < seq0.len() && (*seq0[j].1).style_index == i;
                        assert(frame.cells@.contains_key(*seq0[j].0) && frame.cells@[*seq0[j].0] == *seq0[j].1);
                        assert(frame_uses(frames@[f as int], i));
                    }
                } else {
                    if used_in_first(frames@, f + 1, i) {
                        let g = choose|g: int| 0 <= g < f + 1 && #[trigger] frame_uses(frames@[g], i);
                        if g < f {
                            assert(used_in_first(frames@, f as int, i));
                        } else {
                            let k = choose|k: CellKey| #[trigger] frame.cells@.contains_key(k) && frame.cells@[k].style_index == i;
                            assert(seq0.contains((&k, &frame.cells@[k])));
                            let j = choose|j: int| 0 <= j < seq0.len() && seq0[j] == (&k, &frame.cells@[k]);
                            assert((*seq0[j].1).style_index == i);
                        }
                    }
                }
            }
        }
        f += 1;
    }
    proof {
        assert(frames@.take(frames@.len() as int) =~= frames@);
    }
    let mut i: usize = 0;
    while i < styles.len()
        invariant
            i <= styles@.len(),
            f == frames@.len(),
            used@.len() == styles@.len(),
            report.errors == old(report).errors,
            forall|j: int| 0 <= j < used@.len() ==> #[trigger] used@[j] == used_in_first(frames@, frames@.len() as int, j),
            messages_text(report.warnings@) == w0 + empty_frame_warnings(kind, frames@) + unused_style_warnings(styles@, frames@, i as int),
        decreases styles.len() - i,
    {
        if !used[i] {
            let mut text = owned("unused style ");
            let quoted = str_debug_string(styles[i].id.as_str());
            push_str(&mut text, quoted.as_str());
            let location = indexed("styles", i);
            proof {
                lemma_messages_push(report.warnings@, ValidationMessage { location: location, message: text });
            }
            push_warning(report, location, text);
        }
        i += 1;
    }
}

/// Every cell of `m` lies on a `width` by `height` canvas, names one of the
/// first `n` styles and shows a V1 character.
pub open spec fn cells_sound(m: Map<CellKey, PaintedCell>, width: u16, height: u16, n: int) -> bool {
    forall|k: CellKey| #[trigger] m.contains_key(k) ==> {
        &&& k.1 < width
        &&& k.0 < height
        &&& m[k].style_index < n
        &&& spec_is_valid_v1_character(m[k].ch)
    }
}

/// Writing V1 text in a known style, inside one row of the canvas, keeps
/// every cell sound.
proof fn lemma_paint_text_sound(
    m: Map<CellKey, PaintedCell>,
    y: u16,
    x: int,
    text: Seq<char>,
    style_index: usize,
    width: u16,
    height: u16,
    n: int,
)
    requires
        cells_sound(m, width, height, n),
        y < height,
        0 <= x,
        x + text.len() <= width,
        style_index < n,
        forall|k: int| 0 <= k < text.len() ==> spec_is_valid_v1_character(#[trigger] text[k]),
    ensures
        cells_sound(paint_text(m, y, x, text, style_index), width, height, n),
    decreases text.len(),
{
    if text.len() > 0 {
        let rest = text.drop_last();
        assert forall|k: int| 0 <= k < rest.len() implies spec_is_valid_v1_character(#[trigger] rest[k]) by {
            assert(rest[k] == text[k]);
        }
        assert(spec_is_valid_v1_character(text[text.len() - 1]));
        lemma_paint_text_sound(m, y, x, rest, style_index, width, height, n);
    }
}

/// Accepted runs keep every cell sound.
proof fn lemma_paint_runs_sound(m: Map<CellKey, PaintedCell>, runs: Seq<RawRun>, width: u16, height: u16, ids: Seq<Seq<char>>)
    requires
        cells_sound(m, width, height, ids.len() as int),
        forall|k: int| 0 <= k < runs.len() ==> #[trigger] run_ok(runs[k], width, height, ids),
    ensures
        cells_sound(paint_runs(m, runs, ids), width, height, ids.len() as int),
    decreases runs.len(),
{
    if runs.len() > 0 {
        let r = runs.last();
        assert(run_ok(runs[runs.len() - 1], width, height, ids));
        assert forall|k: int| 0 <= k < runs.drop_last().len() implies #[trigger] run_ok(runs.drop_last()[k], width, height, ids) by {
            assert(runs.drop_last()[k] == runs[k]);
        }
        lemma_paint_runs_sound(m, runs.drop_last(), width, height, ids);
        lemma_style_lookup_bound(ids, r.style@);
        lemma_paint_text_sound(
            paint_runs(m, runs.drop_last(), ids),
            r.y as u16,
            r.x as int,
            r.text@,
            style_lookup(ids, r.style@).unwrap() as usize,
            width,
            height,
            ids.len() as int,
        );
    }
}

/// Accepted explicit cells keep every cell sound.
proof fn lemma_paint_cells_sound(m: Map<CellKey, PaintedCell>, cells: Seq<RawCell>, width: u16, height: u16, ids: Seq<Seq<char>>)
    requires
        cells_sound(m, width, height, ids.len() as int),
        forall|k: int| 0 <= k < cells.len() ==> #[trigger] cell_ok(cells[k], width, height, ids),
    ensures
        cells_sound(paint_cells(m, cells, ids), width, height, ids.len() as int),
    decreases cells.len(),
{
    if cells.len() > 0 {
        let c = cells.last();
        assert(cell_ok(cells[cells.len() - 1], width, height, ids));
        assert forall|k: int| 0 <= k < cells.drop_last().len() implies #[trigger] cell_ok(cells.drop_last()[k], width, height, ids) by {
            assert(cells.drop_last()[k] == cells[k]);
        }
        lemma_paint_cells_sound(m, cells.drop_last(), width, height, ids);
        lemma_style_lookup_bound(ids, c.style@);
    }
}

/// Everything an accepted document promises of the project it loads as:
/// a canvas of 1..=500 by 1..=300 cells and at most 150000 cells in area;
/// 1..=1000 frames, exactly one for an image; at most 256 styles with
/// non-blank, pairwise distinct IDs; frame IDs, where present, non-blank and
/// pairwise distinct; positive frame durations; and every painted cell on
/// the canvas, naming an existing style and showing a V1 character.
pub proof fn lemma_loaded_project_sound(p: Project, raw: RawProject)
    requires
        raw_project_ok(raw),
        project_from_raw(p, raw),
    ensures
        1 <= p.asset.width <= MAX_WIDTH,
        1 <= p.asset.height <= MAX_HEIGHT,
        p.asset.width * p.asset.height <= MAX_AREA_PER_FRAME,
        p.asset.kind == AssetKind::Image ==> p.frames@.len() == 1,
        1 <= p.frames@.len() <= MAX_FRAMES,
        p.styles@.len() <= MAX_STYLES,
        forall|i: int| 0 <= i < p.styles@.len() ==> !is_blank((#[trigger] p.styles@[i]).id@),
        forall|i: int, j: int|
            0 <= i < j < p.styles@.len() ==> (#[trigger] p.styles@[i]).id@ != (#[trigger] p.styles@[j]).id@,
        forall|i: int| 0 <= i < p.frames@.len() ==> ((#[trigger] p.frames@[i]).id matches Some(s) ==> !is_blank(s@)),
        forall|i: int, j: int|
            0 <= i < j < p.frames@.len() ==> !((#[trigger] p.frames@[i]).id matches Some(a) && (#[trigger] p.frames@[j]).id
                matches Some(b) && a@ == b@),
        forall|i: int| 0 <= i < p.frames@.len() ==> (#[trigger] p.frames@[i]).duration_ms > 0,
        forall|i: int|
            0 <= i < p.frames@.len() ==> cells_sound(
                (#[trigger] p.frames@[i]).cells@,
                p.asset.width,
                p.asset.height,
                p.styles@.len() as int,
            ),
{
    let ids = raw_style_ids(raw.styles@);
    let w = raw.asset.width as u16;
    let h = raw.asset.height as u16;
    assert(ids.len() == p.styles@.len());
    assert forall|i: int| 0 <= i < p.styles@.len() implies !is_blank((#[trigger] p.styles@[i]).id@) by {
        assert(raw_style_ok(raw.styles@, i));
        assert(style_from_raw(p.styles@[i], raw.styles@[i]));
    }
    assert forall|i: int, j: int| 0 <= i < j < p.styles@.len() implies (#[trigger] p.styles@[i]).id@ != (
    #[trigger] p.styles@[j]).id@ by {
        assert(raw_style_ok(raw.styles@, j));
        assert(raw.styles@[i].id@ != raw.styles@[j].id@);
        assert(style_from_raw(p.styles@[i], raw.styles@[i]));
        assert(style_from_raw(p.styles@[j], raw.styles@[j]));
    }
    assert forall|i: int| 0 <= i < p.frames@.len() implies {
        &&& ((#[trigger] p.frames@[i]).id matches Some(s) ==> !is_blank(s@))
        &&& p.frames@[i].duration_ms > 0
        &&& cells_sound(p.frames@[i].cells@, p.asset.width, p.asset.height, p.styles@.len() as int)
    } by {
        let rf = raw.frames@[i];
        assert(raw_frame_ok(raw.frames@, i, w, h, ids));
        assert(frame_from_raw(p.frames@[i], rf, p.asset.default_frame_duration_ms, ids));
        assert forall|k: int| 0 <= k < rf.runs@.len() implies #[trigger] run_ok(rf.runs@[k], w, h, ids) by {}
        assert forall|k: int| 0 <= k < rf.cells@.len() implies #[trigger] cell_ok(rf.cells@[k], w, h, ids) by {}
        lemma_paint_runs_sound(Map::empty(), rf.runs@, w, h, ids);
        lemma_paint_cells_sound(paint_runs(Map::empty(), rf.runs@, ids), rf.cells@, w, h, ids);
    }
    assert forall|i: int, j: int| 0 <= i < j < p.frames@.len() implies !((#[trigger] p.frames@[i]).id matches Some(a) && (
    #[trigger] p.frames@[j]).id matches Some(b) && a@ == b@) by {
        assert(raw_frame_ok(raw.frames@, j, w, h, ids));
        assert(frame_from_raw(p.frames@[i], raw.frames@[i], p.asset.default_frame_duration_ms, ids));
        assert(frame_from_raw(p.frames@[j], raw.frames@[j], p.asset.default_frame_duration_ms, ids));
        assert(raw.frames@.take(j)[i] == raw.frames@[i]);
    }
}

/// Validates a raw document and builds the project it describes.
///
/// The document is accepted exactly when `raw_project_ok` holds; the
/// project then is the one `project_from_raw` describes. A rejected
/// document yields a report with at least one error that names each
/// problem found: problems of the `[asset]` table and the frame count
/// always; layout and style problems once the canvas size and default
/// duration are acceptable; and frame, run and cell problems once the
/// asset, layout and styles are.
pub fn validate_raw_project(raw: RawProject) -> (r: Result<LoadedProject, FormatError>)
    ensures
        r is Ok == raw_project_ok(raw),
        r matches Ok(loaded) ==> project_from_raw(loaded.project, raw),
        r matches Ok(loaded) ==> messages_text(loaded.warnings@) == project_warnings(loaded.project),
        r matches Err(e) ==> (e matches FormatError::Validation(report) && report.errors@.len() > 0),
        r matches Err(e) ==> (e matches FormatError::Validation(report) && asset_errors(raw, report.errors@)),
        r matches Err(e) ==> (e matches FormatError::Validation(report) && (dims_ok(raw) ==> fg_errors(
            raw.styles@,
            raw.styles@.len() as int,
            report.errors@,
        ))),
        r matches Err(e) ==> (e matches FormatError::Validation(report) && (dims_ok(raw) ==> {
            &&& layout_errors(raw.layout, report.errors@)
            &&& styles_reported(raw.styles@, raw.styles@.len() as int, report.errors@)
            &&& raw.styles@.len() > MAX_STYLES ==> has_error(report.errors@, "styles"@, style_count_message(raw.styles@.len()))
        })),
        r matches Err(e) ==> (e matches FormatError::Validation(report) && (asset_ok(raw) && layout_ok(raw.layout)
            && styles_ok(raw.styles@) ==> {
            &&& frame_field_errors(raw.frames@, raw.frames@.len() as int, report.errors@)
            &&& total_cells_error(
                raw.frames@,
                raw.frames@.len() as int,
                raw.asset.width as u16,
                raw.asset.height as u16,
                raw_style_ids(raw.styles@),
                report.errors@,
            )
            &&& frames_edge_errors(
                raw.frames@,
                raw.frames@.len() as int,
                raw.asset.width as u16,
                raw.asset.height as u16,
                raw_style_ids(raw.styles@),
                report.errors@,
            )
            &&& frames_runs_reported(
                raw.frames@,
                raw.frames@.len() as int,
                raw.asset.width as u16,
                raw.asset.height as u16,
                raw_style_ids(raw.styles@),
                report.errors@,
            )
            &&& frames_cells_reported(
                raw.frames@,
                raw.frames@.len() as int,
                raw.asset.width as u16,
                raw.asset.height as u16,
                raw_style_ids(raw.styles@),
                report.errors@,
            )
            &&& frames_writes_reported(
                raw.frames@,
                raw.frames@.len() as int,
                raw.asset.width as u16,
                raw.asset.height as u16,
                raw_style_ids(raw.styles@),
                report.errors@,
            )
        })),
{
    let ghost raw0 = raw;
    let mut report = ValidationReport::default();
    let RawProject { schema_version, asset, layout, styles: raw_styles, frames: raw_frames } = raw;
    if schema_version != SCHEMA_VERSION {
        let location = owned("schema_version");
        let text = with_two_numbers("unsupported schema version ", schema_version as u64, "; expected ", SCHEMA_VERSION as u64);
        proof {
            lemma_pushed_has(report.errors@, ValidationMessage { location: location, message: text });
        }
        push_error(&mut report, location, text);
    }
    let ghost s1 = report.errors@;
    let kind = match AssetKind::parse(asset.kind.as_str()) {
        Some(kind) => kind,
        None => {
            let location = owned("asset.kind");
            let text = owned("must be \"image\" or \"animation\"");
            proof {
                lemma_pushed_has(report.errors@, ValidationMessage { location: location, message: text });
            }
            push_error(&mut report, location, text);
            AssetKind::Image
        },
    };
    let ghost s2 = report.errors@;
    let width = validate_positive_u16(&mut report, owned("asset.width"), asset.width, Some(MAX_WIDTH));
    let ghost sw = report.errors@;
    let height = validate_positive_u16(&mut report, owned("asset.height"), asset.height, Some(MAX_HEIGHT));
    let ghost sh = report.errors@;
    let default_duration = validate_positive_u64(&mut report, owned("asset.default_frame_duration_ms"), asset.default_frame_duration_ms);
    let ghost sd = report.errors@;
    match (width, height) {
        (Some(w), Some(h)) => {
            proof {
                assert((w as int) * (h as int) <= 500 * 300) by (nonlinear_arith)
                    requires w <= 500, h <= 300;
            }
            let area = (w as u64) * (h as u64);
            if area > MAX_AREA_PER_FRAME {
                let location = owned("asset");
                let text = with_two_numbers("area ", area, " exceeds maximum area per frame ", MAX_AREA_PER_FRAME);
                proof {
                    lemma_pushed_has(report.errors@, ValidationMessage { location: location, message: text });
                }
                push_error(&mut report, location, text);
            }
        },
        _ => {},
    }
    let ghost sa = report.errors@;
    if raw_frames.len() > MAX_FRAMES {
        let location = owned("frames");
        let text = with_two_numbers("frame count ", raw_frames.len() as u64, " exceeds maximum ", MAX_FRAMES as u64);
        proof {
            lemma_pushed_has(report.errors@, ValidationMessage { location: location, message: text });
        }
        push_error(&mut report, location, text);
    }
    let ghost s2b = report.errors@;
    match kind {
        AssetKind::Image => {
            if raw_frames.len() != 1 {
                let location = owned("frames");
                let text = owned("kind = \"image\" requires exactly one frame");
                proof {
                    lemma_pushed_has(report.errors@, ValidationMessage { location: location, message: text });
                }
                push_error(&mut report, location, text);
            }
        },
        AssetKind::Animation => {
            if raw_frames.len() == 0 {
                let location = owned("frames");
                let text = owned("kind = \"animation\" requires one or more frames");
                proof {
                    lemma_pushed_has(report.errors@, ValidationMessage { location: location, message: text });
                }
                push_error(&mut report, location, text);
            }
        },
    }
    let ghost s3 = report.errors@;
    proof {
        lemma_kept_trans(s1, s2, s2b);
        lemma_kept_trans(s1, s2b, s3);
        lemma_kept_trans(s2, s2b, s3);
        let kd = kind_from_name(raw0.asset.kind@);
        if raw0.schema_version != SCHEMA_VERSION {
            lemma_kept_has(s1, s3, "schema_version"@, "unsupported schema version "@ + decimal_text(raw0.schema_version as nat)
                + "; expected "@ + decimal_text(SCHEMA_VERSION as nat));
        }
        if kd is None {
            lemma_kept_has(s2, s3, "asset.kind"@, "must be \"image\" or \"animation\""@);
        }
        let w = raw0.asset.width;
        let h = raw0.asset.height;
        lemma_kept_trans(sw, sh, sd);
        lemma_kept_trans(sd, sa, s2b);
        lemma_kept_trans(sw, sd, s2b);
        lemma_kept_trans(sh, sd, s2b);
        lemma_kept_trans(sw, s2b, s3);
        lemma_kept_trans(sh, s2b, s3);
        lemma_kept_trans(sd, s2b, s3);
        lemma_kept_trans(sa, s2b, s3);
        if !positive_u16_ok(w, Some(MAX_WIDTH)) {
            lemma_kept_has(sw, s3, "asset.width"@, positive_u16_message(w, Some(MAX_WIDTH)));
        }
        if !positive_u16_ok(h, Some(MAX_HEIGHT)) {
            lemma_kept_has(sh, s3, "asset.height"@, positive_u16_message(h, Some(MAX_HEIGHT)));
        }
        if raw0.asset.default_frame_duration_ms <= 0 {
            lemma_kept_has(sd, s3, "asset.default_frame_duration_ms"@, "must be a positive integer"@);
        }
        if positive_u16_ok(w, Some(MAX_WIDTH)) && positive_u16_ok(h, Some(MAX_HEIGHT)) && w * h > MAX_AREA_PER_FRAME {
            lemma_kept_has(
                sa,
                s3,
                "asset"@,
                "area "@ + decimal_text((w * h) as nat) + " exceeds maximum area per frame "@ + decimal_text(
                    MAX_AREA_PER_FRAME as nat,
                ),
            );
        }
        if raw0.frames@.len() > MAX_FRAMES {
            lemma_kept_has(
                s2b,
                s3,
                "frames"@,
                "frame count "@ + decimal_text(raw0.frames@.len()) + " exceeds maximum "@ + decimal_text(MAX_FRAMES as nat),
            );
        }
        assert(asset_errors(raw0, s3));
    }
    let (width, height, default_duration) = match (width, height, default_duration) {
        (Some(w), Some(h), Some(d)) => (w, h, d),
        _ => {
            return Err(FormatError::Validation(report));
        },
    };
    let ghost after_asset = report.errors@.len();
    proof {
        assert((after_asset == 0) == asset_ok(raw0));
    }
    let ghost s4 = report.errors@;
    let layout = validate_layout(&mut report, layout, width, height);
    let ghost after_layout = report.errors@.len();
    let ghost s5 = report.errors@;
    let styles = validate_styles(&mut report, raw_styles);
    proof {
        lemma_kept_trans(s4, s5, report.errors@);
        lemma_asset_errors_kept(raw0, s4, report.errors@);
        lemma_layout_errors_kept(raw0.layout, s5, report.errors@);
    }
    if report.errors.len() != 0 {
        return Err(FormatError::Validation(report));
    }
    let layout = match layout {
        Some(l) => l,
        None => {
            return Err(FormatError::Validation(report));
        },
    };
    let styles = match styles {
        Some(v) => v,
        None => {
            return Err(FormatError::Validation(report));
        },
    };
    let mut style_ids: Vec<Vec<char>> = Vec::new();
    let mut i: usize = 0;
    while i < styles.len()
        invariant
            i <= styles@.len(),
            styles@.len() == raw0.styles@.len(),
            forall|j: int| 0 <= j < styles@.len() ==> style_from_raw(#[trigger] styles@[j], raw0.styles@[j]),
            seq_of_ids(style_ids@) == raw_style_ids(raw0.styles@).take(i as int),
        decreases styles.len() - i,
    {
        let id = chars_of(styles[i].id.as_str());
        proof {
            assert(style_from_raw(styles@[i as int], raw0.styles@[i as int]));
            assert(seq_of_ids(style_ids@.push(id)) == seq_of_ids(style_ids@).push(id@));
            assert(raw_style_ids(raw0.styles@).take(i + 1) == raw_style_ids(raw0.styles@).take(i as int).push(id@));
        }
        style_ids.push(id);
        i += 1;
    }
    proof {
        assert(raw_style_ids(raw0.styles@).take(styles@.len() as int) == raw_style_ids(raw0.styles@));
    }
    let ghost before_frames = report.errors@.len();
    let ghost warnings_before_frames = report.warnings@;
    let frames = validate_frames(&mut report, raw_frames, width, height, default_duration, &style_ids);
    let ghost warnings_after_frames = messages_text(report.warnings@);
    if layout.min_width > width {
        let location = owned("layout.min_width");
        let text = owned("layout minimum width is larger than asset width");
        proof {
            lemma_messages_push(report.warnings@, ValidationMessage { location: location, message: text });
        }
        push_warning(&mut report, location, text);
    }
    if layout.min_height > height {
        let location = owned("layout.min_height");
        let text = owned("layout minimum height is larger than asset height");
        proof {
            lemma_messages_push(report.warnings@, ValidationMessage { location: location, message: text });
        }
        push_warning(&mut report, location, text);
    }
    proof {
        assert(messages_text(report.warnings@) == warnings_after_frames + layout_warnings(layout, width, height));
    }
    if report.errors.len() != 0 {
        return Err(FormatError::Validation(report));
    }
    let frames = match frames {
        Some(v) => v,
        None => {
            return Err(FormatError::Validation(report));
        },
    };
    let ghost warnings_before_usage = messages_text(report.warnings@);
    add_usage_warnings(&mut report, kind, &styles, &frames);
    proof {
        assert(warnings_before_frames.len() == 0);
        assert(messages_text(warnings_before_frames) =~= Seq::empty());
    }
    let project = Project {
        asset: Asset {
            name: asset.name,
            kind,
            width,
            height,
            default_frame_duration_ms: default_duration,
            loop_animation: asset.loop_animation,
        },
        layout,
        styles,
        frames,
    };
    Ok(LoadedProject { project, warnings: report.warnings })
}

} // verus!
