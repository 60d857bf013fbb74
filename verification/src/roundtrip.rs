use vstd::prelude::*;

use crate::export::{out_cell_of, out_cells_of, out_frame_of, out_of_project, out_style_of};
use crate::model::{
    anchor_from_name, anchor_name, attr_from_name, attr_name, hex_digit_upper, hex_digit_value,
    kind_from_name, kind_name, lemma_names_parse_back, overflow_from_name, overflow_name,
    spec_parse_hex, spec_to_hex, AssetKind, CellKey, Color, Frame, PaintedCell, painted, Project,
    TerminalStyle, MAX_AREA_PER_FRAME,
    MAX_EXPANDED_CELLS_ALL_FRAMES, MAX_EXPLICIT_CELLS_PER_FRAME, MAX_FRAMES, MAX_HEIGHT, MAX_STYLES,
    MAX_WIDTH, SCHEMA_VERSION,
};
use crate::order::key_before;
use crate::raw::{OutCell, OutFrame, OutProject, RawCell, RawFrame, RawProject, RawStyle};
use crate::text::is_blank;
use crate::unicode::spec_is_valid_v1_character;
use crate::validate::{
    asset_ok, cell_ok, compose_frame, frame_from_raw, frame_id_ok, frames_ok, layout_ok,
    paint_cells, paint_runs, positive_u16_ok, project_from_raw, raw_frame_ok, raw_project_ok,
    raw_style_ids, raw_style_ok, run_chars_total, spec_layout, spec_max_expanded_writes, style_from_raw,
    style_lookup, styles_ok, total_composed_cells, spec_bg, bg_ok, coordinate_ok,
};

verus! {

/// The views of an optional string.
pub open spec fn opt_view(o: Option<String>) -> Option<Seq<char>> {
    match o {
        Some(s) => Some(s@),
        None => None,
    }
}

/// The number of painted cells over all frames.
pub open spec fn painted_cells_total(frames: Seq<Frame>) -> int
    decreases frames.len(),
{
    if frames.len() == 0 {
        0
    } else {
        painted_cells_total(frames.drop_last()) + frames.last().cells@.len()
    }
}

/// A project that the file format can hold: sizes, counts and durations
/// within the limits, non-blank unique style and frame IDs, a frame count
/// that fits the kind, and painted cells inside the canvas holding V1
/// characters in existing styles.
pub open spec fn project_valid(p: Project) -> bool {
    &&& 1 <= p.asset.width <= MAX_WIDTH
    &&& 1 <= p.asset.height <= MAX_HEIGHT
    &&& p.asset.width * p.asset.height <= MAX_AREA_PER_FRAME
    &&& 1 <= p.asset.default_frame_duration_ms <= i64::MAX
    &&& p.layout.min_width >= 1
    &&& p.layout.min_height >= 1
    &&& p.styles@.len() <= MAX_STYLES
    &&& forall|i: int| 0 <= i < p.styles@.len() ==> !is_blank((#[trigger] p.styles@[i]).id@)
    &&& forall|i: int, j: int| 0 <= i < j < p.styles@.len() ==> (#[trigger] p.styles@[i]).id@ != (#[trigger] p.styles@[j]).id@
    &&& p.frames@.len() <= MAX_FRAMES
    &&& match p.asset.kind {
        AssetKind::Image => p.frames@.len() == 1,
        AssetKind::Animation => p.frames@.len() >= 1,
    }
    &&& forall|i: int| 0 <= i < p.frames@.len() ==> 1 <= (#[trigger] p.frames@[i]).duration_ms <= i64::MAX
    &&& forall|i: int| 0 <= i < p.frames@.len() ==> ((#[trigger] p.frames@[i]).id matches Some(s) ==> !is_blank(s@))
    &&& forall|i: int, j: int| 0 <= i < j < p.frames@.len() ==> !((#[trigger] p.frames@[i]).id matches Some(a)
        && (#[trigger] p.frames@[j]).id matches Some(b) && a@ == b@)
    &&& forall|i: int| 0 <= i < p.frames@.len() ==> (#[trigger] p.frames@[i]).cells@.len() <= MAX_EXPLICIT_CELLS_PER_FRAME
    &&& forall|i: int, k: CellKey| 0 <= i < p.frames@.len() && #[trigger] p.frames@[i].cells@.contains_key(k) ==> {
        &&& k.0 < p.asset.height
        &&& k.1 < p.asset.width
        &&& p.frames@[i].cells@[k].style_index < p.styles@.len()
        &&& spec_is_valid_v1_character(p.frames@[i].cells@[k].ch)
    }
    &&& painted_cells_total(p.frames@) <= MAX_EXPANDED_CELLS_ALL_FRAMES
}

/// `raw` holds exactly the data of the written form `out`: what reading
/// back the serialized text of `out` yields.
pub open spec fn raw_mirrors_out(raw: RawProject, out: OutProject) -> bool {
    &&& raw.schema_version == out.schema_version
    &&& raw.asset.name@ == out.asset.name@
    &&& raw.asset.kind@ == out.asset.kind@
    &&& raw.asset.width == out.asset.width
    &&& raw.asset.height == out.asset.height
    &&& raw.asset.default_frame_duration_ms == out.asset.default_frame_duration_ms
    &&& raw.asset.loop_animation == out.asset.loop_animation
    &&& raw.layout matches Some(l) && {
        &&& l.min_width == Some(out.layout.min_width as i64)
        &&& l.min_height == Some(out.layout.min_height as i64)
        &&& opt_view(l.anchor) == Some(out.layout.anchor@)
        &&& opt_view(l.overflow) == Some(out.layout.overflow@)
    }
    &&& raw.styles@.len() == out.styles@.len()
    &&& forall|i: int| 0 <= i < raw.styles@.len() ==> {
        let r = #[trigger] raw.styles@[i];
        let o = out.styles@[i];
        &&& r.id@ == o.id@
        &&& r.fg@ == o.fg@
        &&& opt_view(r.bg) == Some(o.bg@)
        &&& r.attrs@.len() == o.attrs@.len()
        &&& forall|k: int| 0 <= k < r.attrs@.len() ==> (#[trigger] r.attrs@[k])@ == o.attrs@[k]@
        &&& opt_view(r.role) == opt_view(o.role)
    }
    &&& raw.frames@.len() == out.frames@.len()
    &&& forall|i: int| 0 <= i < raw.frames@.len() ==> {
        let r = #[trigger] raw.frames@[i];
        let o = out.frames@[i];
        &&& opt_view(r.id) == opt_view(o.id)
        &&& r.duration_ms == match o.duration_ms {
            Some(d) => Some(d as i64),
            None => None,
        }
        &&& r.runs@.len() == o.runs@.len()
        &&& r.cells@.len() == o.cells@.len()
        &&& forall|k: int| 0 <= k < r.cells@.len() ==> {
            let rc = #[trigger] r.cells@[k];
            let oc = o.cells@[k];
            &&& rc.x == oc.x
            &&& rc.y == oc.y
            &&& rc.ch@ == oc.ch@
            &&& rc.style@ == oc.style@
        }
    }
}

/// Two styles hold the same data, strings compared by their characters.
pub open spec fn same_style(a: TerminalStyle, b: TerminalStyle) -> bool {
    &&& a.id@ == b.id@
    &&& a.fg == b.fg
    &&& a.bg == b.bg
    &&& a.attrs@ == b.attrs@
    &&& opt_view(a.role) == opt_view(b.role)
}

/// Two frames hold the same data, strings compared by their characters.
pub open spec fn same_frame(a: Frame, b: Frame) -> bool {
    &&& opt_view(a.id) == opt_view(b.id)
    &&& a.duration_ms == b.duration_ms
    &&& a.cells@ == b.cells@
}

/// Two projects hold the same data, strings compared by their characters.
pub open spec fn same_project(q: Project, p: Project) -> bool {
    &&& q.asset.name@ == p.asset.name@
    &&& q.asset.kind == p.asset.kind
    &&& q.asset.width == p.asset.width
    &&& q.asset.height == p.asset.height
    &&& q.asset.default_frame_duration_ms == p.asset.default_frame_duration_ms
    &&& q.asset.loop_animation == p.asset.loop_animation
    &&& q.layout == p.layout
    &&& q.styles@.len() == p.styles@.len()
    &&& forall|i: int| 0 <= i < q.styles@.len() ==> same_style(#[trigger] q.styles@[i], p.styles@[i])
    &&& q.frames@.len() == p.frames@.len()
    &&& forall|i: int| 0 <= i < q.frames@.len() ==> same_frame(#[trigger] q.frames@[i], p.frames@[i])
}

proof fn lemma_hex_digit(d: u8)
    requires
        d < 16,
    ensures
        hex_digit_value(hex_digit_upper(d)) == Some(d),
{
}

/// Written colors read back as the same color, and never as `transparent`.
pub proof fn lemma_hex_round_trip(c: Color)
    ensures
        spec_parse_hex(spec_to_hex(c)) == Some(c),
        spec_to_hex(c) != "transparent"@,
{
    lemma_hex_digit(c.r / 16);
    lemma_hex_digit(c.r % 16);
    lemma_hex_digit(c.g / 16);
    lemma_hex_digit(c.g % 16);
    lemma_hex_digit(c.b / 16);
    lemma_hex_digit(c.b % 16);
    let s = spec_to_hex(c);
    assert(forall|i: int| 1 <= i < 7 ==> (#[trigger] hex_digit_value(s[i])) is Some);
    reveal_strlit("transparent");
    assert(s.len() != "transparent"@.len());
}

/// With distinct IDs, an ID resolves to its own index.
proof fn lemma_lookup_distinct(ids: Seq<Seq<char>>, i: int)
    requires
        0 <= i < ids.len(),
        forall|a: int, b: int| 0 <= a < b < ids.len() ==> ids[a] != ids[b],
    ensures
        style_lookup(ids, ids[i]) == Some(i as nat),
    decreases ids.len(),
{
    if i < ids.len() - 1 {
        let d = ids.drop_last();
        assert(ids.last() != ids[i]);
        assert(d[i] == ids[i]);
        lemma_lookup_distinct(d, i);
    }
}

/// Writing cells with distinct positions over nothing leaves exactly those
/// cells.
proof fn lemma_paint_distinct_cells(cells: Seq<RawCell>, ids: Seq<Seq<char>>)
    requires
        forall|j: int, k: int| 0 <= j < k < cells.len() ==> ((#[trigger] cells[j]).y as u16, cells[j].x as u16) != ((#[trigger] cells[k]).y as u16, cells[k].x as u16),
    ensures
        forall|key: CellKey| #[trigger] paint_cells(Map::empty(), cells, ids).contains_key(key) <==> exists|j: int|
            0 <= j < cells.len() && (cells[j].y as u16, cells[j].x as u16) == key,
        forall|j: int| 0 <= j < cells.len() ==> #[trigger] paint_cells(Map::empty(), cells, ids)[(cells[j].y as u16, cells[j].x as u16)]
            == painted(cells[j].ch@[0], style_lookup(ids, cells[j].style@).unwrap() as usize),
    decreases cells.len(),
{
    if cells.len() > 0 {
        let d = cells.drop_last();
        lemma_paint_distinct_cells(d, ids);
        let m = paint_cells(Map::empty(), cells, ids);
        let pd = paint_cells(Map::empty(), d, ids);
        let last_key = (cells.last().y as u16, cells.last().x as u16);
        assert(cells.len() != 0);
        assert(m == pd.insert(last_key, painted(cells.last().ch@[0], style_lookup(ids, cells.last().style@).unwrap() as usize)));
        assert forall|key: CellKey| #[trigger] m.contains_key(key) <==> exists|j: int|
            0 <= j < cells.len() && (cells[j].y as u16, cells[j].x as u16) == key by {
            if m.contains_key(key) && key != last_key {
                assert(pd.contains_key(key));
                let j = choose|j: int| 0 <= j < d.len() && (d[j].y as u16, d[j].x as u16) == key;
                assert(cells[j] == d[j]);
            }
            if exists|j: int| 0 <= j < cells.len() && (cells[j].y as u16, cells[j].x as u16) == key {
                let j = choose|j: int| 0 <= j < cells.len() && (cells[j].y as u16, cells[j].x as u16) == key;
                if j < cells.len() - 1 {
                    assert(d[j] == cells[j]);
                    assert(pd.contains_key(key));
                }
            }
        }
        assert forall|j: int| 0 <= j < cells.len() implies #[trigger] m[(cells[j].y as u16, cells[j].x as u16)]
            == painted(cells[j].ch@[0], style_lookup(ids, cells[j].style@).unwrap() as usize) by {
            if j < cells.len() - 1 {
                assert(d[j] == cells[j]);
                assert((cells[j].y as u16, cells[j].x as u16) != last_key);
            }
        }
    }
}

/// The IDs of a list of styles.
pub open spec fn style_ids(styles: Seq<TerminalStyle>) -> Seq<Seq<char>> {
    styles.map_values(|t: TerminalStyle| t.id@)
}

/// The written cells of a frame, read back, compose to its painted cells,
/// and each of them passes validation.
proof fn lemma_frame_cells_round_trip(
    f: Frame,
    o: OutFrame,
    r: RawFrame,
    styles: Seq<TerminalStyle>,
    width: u16,
    height: u16,
)
    requires
        out_cells_of(o.cells@, f.cells@, styles),
        r.runs@.len() == 0,
        r.cells@.len() == o.cells@.len(),
        forall|k: int| 0 <= k < r.cells@.len() ==> {
            let rc = #[trigger] r.cells@[k];
            let oc = o.cells@[k];
            &&& rc.x == oc.x
            &&& rc.y == oc.y
            &&& rc.ch@ == oc.ch@
            &&& rc.style@ == oc.style@
        },
        forall|a: int, b: int| 0 <= a < b < styles.len() ==> (#[trigger] styles[a]).id@ != (#[trigger] styles[b]).id@,
        forall|k: CellKey| #[trigger] f.cells@.contains_key(k) ==> {
            &&& k.0 < height
            &&& k.1 < width
            &&& f.cells@[k].style_index < styles.len()
            &&& spec_is_valid_v1_character(f.cells@[k].ch)
        },
    ensures
        compose_frame(r, style_ids(styles)) == f.cells@,
        forall|k: int| 0 <= k < r.cells@.len() ==> #[trigger] cell_ok(r.cells@[k], width, height, style_ids(styles)),
{
    let ids = style_ids(styles);
    let cells = r.cells@;
    let oc = o.cells@;
    let m = f.cells@;
    assert forall|a: int, b: int| 0 <= a < b < ids.len() implies ids[a] != ids[b] by {
        assert(ids[a] == styles[a].id@);
        assert(ids[b] == styles[b].id@);
    }
    assert(paint_runs(Map::empty(), r.runs@, ids) == Map::<CellKey, PaintedCell>::empty());
    assert forall|j: int| 0 <= j < cells.len() implies (#[trigger] cells[j].y as u16, cells[j].x as u16) == (oc[j].y, oc[j].x) by {
        assert(cells[j].y == oc[j].y);
        assert(cells[j].x == oc[j].x);
    }
    assert forall|j: int, k: int| 0 <= j < k < cells.len() implies ((#[trigger] cells[j]).y as u16, cells[j].x as u16)
        != ((#[trigger] cells[k]).y as u16, cells[k].x as u16) by {
        assert((cells[j].y as u16, cells[j].x as u16) == (oc[j].y, oc[j].x));
        assert((cells[k].y as u16, cells[k].x as u16) == (oc[k].y, oc[k].x));
        assert(key_before((oc[j].y, oc[j].x), (oc[k].y, oc[k].x)));
    }
    lemma_paint_distinct_cells(cells, ids);
    let pm = paint_cells(Map::empty(), cells, ids);
    assert forall|j: int| 0 <= j < cells.len() implies #[trigger] pm[(cells[j].y as u16, cells[j].x as u16)]
        == m[(oc[j].y, oc[j].x)] && cell_ok(cells[j], width, height, ids) by {
        let key = (oc[j].y, oc[j].x);
        assert((cells[j].y as u16, cells[j].x as u16) == key);
        assert(m.contains_key(key));
        let cell = m[key];
        assert(out_cell_of(oc[j], cell, styles));
        assert(cells[j].ch@ == seq![cell.ch]);
        assert(ids[cell.style_index as int] == styles[cell.style_index as int].id@);
        lemma_lookup_distinct(ids, cell.style_index as int);
        assert(painted(cells[j].ch@[0], style_lookup(ids, cells[j].style@).unwrap() as usize) == cell);
    }
    assert forall|key: CellKey| #[trigger] m.contains_key(key) implies pm.contains_key(key) && pm[key] == m[key] by {
        let j = choose|j: int| 0 <= j < oc.len() && (#[trigger] oc[j].y, oc[j].x) == key;
        assert((cells[j].y as u16, cells[j].x as u16) == key);
    }
    assert forall|key: CellKey| #[trigger] pm.contains_key(key) implies m.contains_key(key) by {
        let j = choose|j: int| 0 <= j < cells.len() && (cells[j].y as u16, cells[j].x as u16) == key;
        assert((cells[j].y as u16, cells[j].x as u16) == (oc[j].y, oc[j].x));
        assert(m.contains_key((oc[j].y, oc[j].x)));
    }
    assert(pm =~= m);
}

/// A written style reads back as an accepted style holding the same data.
proof fn lemma_style_round_trip(p: Project, out: OutProject, raw: RawProject, i: int)
    requires
        project_valid(p),
        out_of_project(out, p),
        raw_mirrors_out(raw, out),
        0 <= i < raw.styles@.len(),
    ensures
        raw_style_ok(raw.styles@, i),
        forall|t: TerminalStyle| #[trigger] style_from_raw(t, raw.styles@[i]) ==> same_style(t, p.styles@[i]),
{
    lemma_names_parse_back();
    let st = p.styles@[i];
    let o = out.styles@[i];
    let r = raw.styles@[i];
    assert(out_style_of(o, st));
    lemma_hex_round_trip(st.fg);
    reveal_strlit("transparent");
    match st.bg {
        Some(c) => lemma_hex_round_trip(c),
        None => {},
    }
    assert(!is_blank(st.id@));
    assert forall|j: int| 0 <= j < i implies (#[trigger] raw.styles@[j]).id@ != r.id@ by {
        assert(out_style_of(out.styles@[j], p.styles@[j]));
        assert(raw.styles@[j].id@ == out.styles@[j].id@);
        assert(p.styles@[j].id@ != p.styles@[i].id@);
    }
    assert forall|k: int| 0 <= k < r.attrs@.len() implies (#[trigger] attr_from_name(r.attrs@[k]@)) is Some by {
        assert(r.attrs@[k]@ == o.attrs@[k]@);
    }
    assert(bg_ok(r.bg));
    assert forall|t: TerminalStyle| #[trigger] style_from_raw(t, r) implies same_style(t, st) by {
        assert forall|k: int| 0 <= k < t.attrs@.len() implies t.attrs@[k] == st.attrs@[k] by {
            assert(r.attrs@[k]@ == o.attrs@[k]@);
            assert(o.attrs@[k]@ == attr_name(st.attrs@[k]));
        }
        assert(t.attrs@ =~= st.attrs@);
    }
}

/// The written styles read back with the IDs of the project's styles.
proof fn lemma_ids_round_trip(p: Project, out: OutProject, raw: RawProject)
    requires
        out_of_project(out, p),
        raw_mirrors_out(raw, out),
    ensures
        raw_style_ids(raw.styles@) == style_ids(p.styles@),
{
    assert forall|i: int| 0 <= i < raw.styles@.len() implies raw_style_ids(raw.styles@)[i] == style_ids(p.styles@)[i] by {
        assert(out_style_of(out.styles@[i], p.styles@[i]));
        assert(raw.styles@[i].id@ == out.styles@[i].id@);
    }
    assert(raw_style_ids(raw.styles@) =~= style_ids(p.styles@));
}

/// A written frame reads back as an accepted frame holding the same data.
proof fn lemma_frame_round_trip(p: Project, out: OutProject, raw: RawProject, i: int)
    requires
        project_valid(p),
        out_of_project(out, p),
        raw_mirrors_out(raw, out),
        0 <= i < raw.frames@.len(),
    ensures
        raw_frame_ok(raw.frames@, i, p.asset.width, p.asset.height, style_ids(p.styles@)),
        compose_frame(raw.frames@[i], style_ids(p.styles@)) == p.frames@[i].cells@,
        forall|f: Frame| #[trigger] frame_from_raw(f, raw.frames@[i], p.asset.default_frame_duration_ms, style_ids(p.styles@))
            ==> same_frame(f, p.frames@[i]),
{
    let ids = style_ids(p.styles@);
    let pf = p.frames@[i];
    let o = out.frames@[i];
    let r = raw.frames@[i];
    let w = p.asset.width;
    let h = p.asset.height;
    assert(out_frame_of(o, pf, p.asset.default_frame_duration_ms, p.styles@));
    assert forall|k: CellKey| #[trigger] pf.cells@.contains_key(k) implies {
        &&& k.0 < h
        &&& k.1 < w
        &&& pf.cells@[k].style_index < p.styles@.len()
        &&& spec_is_valid_v1_character(pf.cells@[k].ch)
    } by {
        assert(p.frames@[i].cells@.contains_key(k));
    }
    lemma_frame_cells_round_trip(pf, o, r, p.styles@, w, h);
    assert(run_chars_total(r.runs@) == 0);
    assert(r.cells@.len() == pf.cells@.len());
    assert(r.cells@.len() <= spec_max_expanded_writes(w, h));
    assert forall|k: int| 0 <= k < r.runs@.len() implies #[trigger] crate::validate::run_ok(r.runs@[k], w, h, ids) by {}
    assert(frame_id_ok(r.id, raw.frames@.take(i))) by {
        if r.id is Some {
            let sid = r.id->0;
            assert(pf.id is Some);
            assert(!is_blank(pf.id->0@));
            assert forall|j: int| 0 <= j < raw.frames@.take(i).len() implies !((#[trigger] raw.frames@.take(i)[j]).id matches Some(e) && e@ == sid@) by {
                assert(raw.frames@.take(i)[j] == raw.frames@[j]);
                assert(out_frame_of(out.frames@[j], p.frames@[j], p.asset.default_frame_duration_ms, p.styles@));
                assert(opt_view(raw.frames@[j].id) == opt_view(out.frames@[j].id));
                assert(!(p.frames@[j].id matches Some(a) && p.frames@[i].id matches Some(b) && a@ == b@));
            }
        }
    }
    assert forall|f: Frame| #[trigger] frame_from_raw(f, r, p.asset.default_frame_duration_ms, ids) implies same_frame(f, pf) by {
        assert(opt_view(f.id) == opt_view(r.id));
    }
}

/// Frames that compose to the painted cells of a project's frames hold as
/// many cells in all.
proof fn lemma_totals_match(rf: Seq<RawFrame>, pf: Seq<Frame>, ids: Seq<Seq<char>>)
    requires
        rf.len() == pf.len(),
        forall|i: int| 0 <= i < rf.len() ==> compose_frame(#[trigger] rf[i], ids) == pf[i].cells@,
    ensures
        total_composed_cells(rf, ids) == painted_cells_total(pf),
    decreases rf.len(),
{
    if rf.len() > 0 {
        let rd = rf.drop_last();
        let pd = pf.drop_last();
        assert forall|i: int| 0 <= i < rd.len() implies compose_frame(#[trigger] rd[i], ids) == pd[i].cells@ by {
            assert(rd[i] == rf[i]);
        }
        lemma_totals_match(rd, pd, ids);
        assert(compose_frame(rf[rf.len() - 1], ids) == pf[pf.len() - 1].cells@);
    }
}

/// Saving a valid project and loading the saved text back gives the same
/// project: the file format loses nothing. Here `out` is the written form
/// that saving builds from `p`, and `raw` is what reading that text back
/// hands to validation, which accepts it and yields `p` again.
pub proof fn lemma_save_then_load(p: Project, out: OutProject, raw: RawProject)
    requires
        project_valid(p),
        out_of_project(out, p),
        raw_mirrors_out(raw, out),
    ensures
        raw_project_ok(raw),
        forall|q: Project| #[trigger] project_from_raw(q, raw) ==> same_project(q, p),
{
    lemma_names_parse_back();
    lemma_ids_round_trip(p, out, raw);
    let ids = style_ids(p.styles@);
    assert(raw.asset.width as u16 == p.asset.width);
    assert(raw.asset.height as u16 == p.asset.height);
    assert(raw.asset.default_frame_duration_ms as u64 == p.asset.default_frame_duration_ms);
    assert(asset_ok(raw));
    assert(layout_ok(raw.layout));
    assert forall|i: int| 0 <= i < raw.styles@.len() implies #[trigger] raw_style_ok(raw.styles@, i) by {
        lemma_style_round_trip(p, out, raw, i);
    }
    assert(styles_ok(raw.styles@));
    assert forall|i: int| 0 <= i < raw.frames@.len() implies #[trigger] raw_frame_ok(raw.frames@, i, p.asset.width, p.asset.height, ids)
        && compose_frame(raw.frames@[i], ids) == p.frames@[i].cells@ by {
        lemma_frame_round_trip(p, out, raw, i);
    }
    assert forall|i: int| 0 <= i < raw.frames@.len() implies compose_frame(#[trigger] raw.frames@[i], ids) == p.frames@[i].cells@ by {
        lemma_frame_round_trip(p, out, raw, i);
    }
    lemma_totals_match(raw.frames@, p.frames@, ids);
    assert(frames_ok(raw.frames@, p.asset.width, p.asset.height, ids));
    assert forall|q: Project| #[trigger] project_from_raw(q, raw) implies same_project(q, p) by {
        assert(q.layout == p.layout);
        assert forall|i: int| 0 <= i < q.styles@.len() implies same_style(#[trigger] q.styles@[i], p.styles@[i]) by {
            lemma_style_round_trip(p, out, raw, i);
            assert(style_from_raw(q.styles@[i], raw.styles@[i]));
        }
        assert forall|i: int| 0 <= i < q.frames@.len() implies same_frame(#[trigger] q.frames@[i], p.frames@[i]) by {
            lemma_frame_round_trip(p, out, raw, i);
            assert(frame_from_raw(q.frames@[i], raw.frames@[i], p.asset.default_frame_duration_ms, ids));
        }
    }
}

} // verus!
