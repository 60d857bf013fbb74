use vstd::prelude::*;
use vstd::std_specs::iter::IteratorSpec;

use crate::model::{
    attr_name, kind_name, anchor_name, overflow_name, spec_to_hex, CellKey, CellMap, PaintedCell,
    Project, TerminalStyle, SCHEMA_VERSION,
};
use crate::raw::{OutAsset, OutCell, OutFrame, OutLayout, OutProject, OutRun, OutStyle};
use crate::order::{key_before, lemma_increasing_keys};
use crate::text::{owned, push_char};
use crate::validate::clone_opt_string;

verus! {

broadcast use vstd::std_specs::btree::group_btree_axioms;

/// The character painted at `(x, y)`, or a space where the cell is
/// transparent.
pub open spec fn char_at(cells: Map<CellKey, PaintedCell>, x: int, y: int) -> char {
    if cells.contains_key((y as u16, x as u16)) {
        cells[(y as u16, x as u16)].ch
    } else {
        ' '
    }
}

/// Row `y` of the canvas as text.
pub open spec fn row_text(cells: Map<CellKey, PaintedCell>, y: int, width: int) -> Seq<char> {
    Seq::new(width as nat, |x: int| char_at(cells, x, y))
}

/// The first `rows` rows of the canvas, joined by newlines.
pub open spec fn plain_text_rows(cells: Map<CellKey, PaintedCell>, width: int, rows: int) -> Seq<char>
    decreases rows,
{
    if rows <= 0 {
        Seq::empty()
    } else if rows == 1 {
        row_text(cells, 0, width)
    } else {
        plain_text_rows(cells, width, rows - 1).push('\n') + row_text(cells, rows - 1, width)
    }
}

/// The frame `export_plain_text` renders: the requested one, or the first
/// when the index is out of range.
pub open spec fn exported_frame(p: Project, frame_index: int) -> Map<CellKey, PaintedCell> {
    if 0 <= frame_index < p.frames@.len() {
        p.frames@[frame_index].cells@
    } else {
        p.frames@[0].cells@
    }
}

/// One frame as plain text: each row of the canvas left to right, rows
/// separated by newlines, transparent cells as spaces, no style.
pub fn export_plain_text(project: &Project, frame_index: usize) -> (r: String)
    requires
        project.frames@.len() > 0,
    ensures
        r@ == plain_text_rows(
            exported_frame(*project, frame_index as int),
            project.asset.width as int,
            project.asset.height as int,
        ),
{
    let frame = if frame_index < project.frames.len() {
        &project.frames[frame_index]
    } else {
        project.first_frame()
    };
    let ghost cells = frame.cells@;
    let width = project.asset.width;
    let height = project.asset.height;
    let mut output = String::new();
    let mut y: u16 = 0;
    while y < height
        invariant
            y <= height,
            cells == frame.cells@,
            output@ == plain_text_rows(cells, width as int, y as int),
        decreases height - y,
    {
        if y > 0 {
            push_char(&mut output, '\n');
        }
        let ghost row_start = output@;
        let mut x: u16 = 0;
        while x < width
            invariant
                x <= width,
                y < height,
                cells == frame.cells@,
                output@ == row_start + row_text(cells, y as int, x as int),
            decreases width - x,
        {
            let ch = match frame.cells.get(&(y, x)) {
                Some(cell) => cell.ch,
                None => ' ',
            };
            proof {
                assert(row_text(cells, y as int, x + 1) == row_text(cells, y as int, x as int).push(ch));
            }
            push_char(&mut output, ch);
            x += 1;
        }
        y += 1;
    }
    output
}

/// The style that every painted cell names exists.
pub open spec fn cell_styles_exist(p: Project) -> bool {
    forall|f: int, k: CellKey|
        0 <= f < p.frames@.len() && #[trigger] p.frames@[f].cells@.contains_key(k)
            ==> p.frames@[f].cells@[k].style_index < p.styles@.len()
}

/// Whether every painted cell of every frame names an existing style.
pub fn cell_styles_checked(project: &Project) -> (r: bool)
    ensures
        r == cell_styles_exist(*project),
{
    let n = project.styles.len();
    let mut f: usize = 0;
    while f < project.frames.len()
        invariant
            f <= project.frames@.len(),
            n == project.styles@.len(),
            forall|g: int, k: CellKey|
                0 <= g < f && #[trigger] project.frames@[g].cells@.contains_key(k)
                    ==> project.frames@[g].cells@[k].style_index < n,
        decreases project.frames.len() - f,
    {
        if !crate::editor::actions::cells_all_styled(&project.frames[f].cells, n) {
            return false;
        }
        f += 1;
    }
    true
}

/// `c` writes the painted cell `cell` at `key`, naming its style by ID.
pub open spec fn out_cell_of(c: OutCell, cell: PaintedCell, styles: Seq<TerminalStyle>) -> bool {
    &&& c.ch@ == seq![cell.ch]
    &&& c.style@ == styles[cell.style_index as int].id@
}

/// The written cells of a frame: every painted cell once, in row-major order.
pub open spec fn out_cells_of(cells: Seq<OutCell>, m: Map<CellKey, PaintedCell>, styles: Seq<TerminalStyle>) -> bool {
    &&& cells.len() == m.len()
    &&& forall|j: int| 0 <= j < cells.len() ==> m.contains_key((#[trigger] cells[j].y, cells[j].x))
    &&& forall|j: int| 0 <= j < cells.len() ==> out_cell_of(#[trigger] cells[j], m[(cells[j].y, cells[j].x)], styles)
    &&& forall|j: int, k: int| 0 <= j < k < cells.len() ==> key_before((#[trigger] cells[j].y, cells[j].x), (#[trigger] cells[k].y, cells[k].x))
    &&& forall|key: CellKey| #[trigger] m.contains_key(key) ==> exists|j: int| 0 <= j < cells.len() && (#[trigger] cells[j].y, cells[j].x) == key
}

/// The written form of a style.
pub open spec fn out_style_of(o: OutStyle, s: TerminalStyle) -> bool {
    &&& o.id@ == s.id@
    &&& o.fg@ == spec_to_hex(s.fg)
    &&& o.bg@ == match s.bg {
        None => "transparent"@,
        Some(c) => spec_to_hex(c),
    }
    &&& o.attrs@.len() == s.attrs@.len()
    &&& forall|k: int| 0 <= k < o.attrs@.len() ==> (#[trigger] o.attrs@[k])@ == attr_name(s.attrs@[k])
    &&& o.role == s.role
}

/// The written form of a frame.
pub open spec fn out_frame_of(o: OutFrame, f: crate::model::Frame, default_duration_ms: u64, styles: Seq<TerminalStyle>) -> bool {
    &&& o.id == f.id
    &&& o.duration_ms == if f.duration_ms == default_duration_ms { None } else { Some(f.duration_ms) }
    &&& o.runs@.len() == 0
    &&& out_cells_of(o.cells@, f.cells@, styles)
}

/// `out` is the canonical written form of `p`.
pub open spec fn out_of_project(out: OutProject, p: Project) -> bool {
    &&& out.schema_version == SCHEMA_VERSION
    &&& out.asset.name == p.asset.name
    &&& out.asset.kind@ == kind_name(p.asset.kind)
    &&& out.asset.width == p.asset.width
    &&& out.asset.height == p.asset.height
    &&& out.asset.default_frame_duration_ms == p.asset.default_frame_duration_ms
    &&& out.asset.loop_animation == p.asset.loop_animation
    &&& out.layout.min_width == p.layout.min_width
    &&& out.layout.min_height == p.layout.min_height
    &&& out.layout.anchor@ == anchor_name(p.layout.anchor)
    &&& out.layout.overflow@ == overflow_name(p.layout.overflow)
    &&& out.styles@.len() == p.styles@.len()
    &&& forall|i: int| 0 <= i < out.styles@.len() ==> out_style_of(#[trigger] out.styles@[i], p.styles@[i])
    &&& out.frames@.len() == p.frames@.len()
    &&& forall|i: int| 0 <= i < out.frames@.len() ==> out_frame_of(#[trigger] out.frames@[i], p.frames@[i], p.asset.default_frame_duration_ms, p.styles@)
}

fn out_style(style: &TerminalStyle) -> (o: OutStyle)
    ensures
        out_style_of(o, *style),
{
    let bg = match style.bg {
        Some(c) => c.to_hex(),
        None => owned("transparent"),
    };
    let mut attrs: Vec<String> = Vec::new();
    let mut k: usize = 0;
    while k < style.attrs.len()
        invariant
            k <= style.attrs@.len(),
            attrs@.len() == k,
            forall|m: int| 0 <= m < k ==> (#[trigger] attrs@[m])@ == attr_name(style.attrs@[m]),
        decreases style.attrs.len() - k,
    {
        attrs.push(owned(style.attrs[k].as_str()));
        k += 1;
    }
    OutStyle { id: style.id.clone(), fg: style.fg.to_hex(), bg, attrs, role: clone_opt_string(&style.role) }
}

fn out_cells(cells: &CellMap, styles: &Vec<TerminalStyle>) -> (r: Vec<OutCell>)
    requires
        forall|k: CellKey| #[trigger] cells@.contains_key(k) ==> cells@[k].style_index < styles@.len(),
    ensures
        out_cells_of(r@, cells@, styles@),
{
    let mut out: Vec<OutCell> = Vec::new();
    let ghost seq0 = vstd::std_specs::btree::spec_btree_map_iter(cells).remaining();
    for (key, cell) in it: cells.iter()
        invariant
            it.seq() == seq0,
            forall|k: CellKey| #[trigger] cells@.contains_key(k) ==> cells@[k].style_index < styles@.len(),
            out@.len() == it.index(),
            forall|j: int| 0 <= j < out@.len() ==> (#[trigger] out@[j].y, out@[j].x) == *it.seq()[j].0,
            forall|j: int| 0 <= j < out@.len() ==> out_cell_of(#[trigger] out@[j], *it.seq()[j].1, styles@),
        ensures
            out@.len() == seq0.len(),
            forall|j: int| 0 <= j < out@.len() ==> (#[trigger] out@[j].y, out@[j].x) == *seq0[j].0,
            forall|j: int| 0 <= j < out@.len() ==> out_cell_of(#[trigger] out@[j], *seq0[j].1, styles@),
    {
        proof {
            let i = it.index();
            assert((key, cell) == seq0[i]);
            assert(cells@.contains_key(*seq0[i].0));
        }
        let mut ch = String::new();
        push_char(&mut ch, cell.ch);
        let c = OutCell { x: key.1, y: key.0, ch, style: styles[cell.style_index].id.clone() };
        out.push(c);
    }
    proof {
        let keys = seq0.map_values(|kv: (&CellKey, &PaintedCell)| *kv.0);
        assert(vstd::std_specs::btree::increasing_seq(keys));
        lemma_increasing_keys(keys);
        assert forall|j: int, k: int| 0 <= j < k < out@.len() implies key_before(
            (#[trigger] out@[j].y, out@[j].x),
            (#[trigger] out@[k].y, out@[k].x),
        ) by {
            assert(keys[j] == (out@[j].y, out@[j].x));
            assert(keys[k] == (out@[k].y, out@[k].x));
        }
        assert forall|j: int| 0 <= j < out@.len() implies cells@.contains_key((#[trigger] out@[j].y, out@[j].x)) by {
            assert(cells@.contains_key(*seq0[j].0));
        }
        assert forall|j: int| 0 <= j < out@.len() implies out_cell_of(#[trigger] out@[j], cells@[(out@[j].y, out@[j].x)], styles@) by {
            assert(cells@.contains_key(*seq0[j].0));
            assert(cells@[*seq0[j].0] == *seq0[j].1);
        }
        assert forall|key: CellKey| #[trigger] cells@.contains_key(key) implies exists|j: int|
            0 <= j < out@.len() && (#[trigger] out@[j].y, out@[j].x) == key by {
            assert(seq0.contains((&key, &cells@[key])));
            let j = choose|j: int| 0 <= j < seq0.len() && seq0[j] == (&key, &cells@[key]);
            assert((out@[j].y, out@[j].x) == key);
        }
    }
    out
}

/// The canonical written form of a project: every field, styles in palette
/// order, frames in animation order, each frame's painted cells in row-major
/// order, and a frame duration only where it differs from the default.
pub fn project_to_out(project: &Project) -> (out: OutProject)
    requires
        cell_styles_exist(*project),
    ensures
        out_of_project(out, *project),
{
    let mut styles: Vec<OutStyle> = Vec::new();
    let mut i: usize = 0;
    while i < project.styles.len()
        invariant
            i <= project.styles@.len(),
            styles@.len() == i,
            forall|j: int| 0 <= j < i ==> out_style_of(#[trigger] styles@[j], project.styles@[j]),
        decreases project.styles.len() - i,
    {
        styles.push(out_style(&project.styles[i]));
        i += 1;
    }
    let mut frames: Vec<OutFrame> = Vec::new();
    let mut f: usize = 0;
    while f < project.frames.len()
        invariant
            f <= project.frames@.len(),
            cell_styles_exist(*project),
            frames@.len() == f,
            forall|j: int| 0 <= j < f ==> out_frame_of(#[trigger] frames@[j], project.frames@[j], project.asset.default_frame_duration_ms, project.styles@),
        decreases project.frames.len() - f,
    {
        let frame = &project.frames[f];
        proof {
            assert forall|k: CellKey| #[trigger] frame.cells@.contains_key(k) implies frame.cells@[k].style_index < project.styles@.len() by {
                assert(project.frames@[f as int].cells@.contains_key(k));
            }
        }
        let duration_ms = if frame.duration_ms == project.asset.default_frame_duration_ms {
            None
        } else {
            Some(frame.duration_ms)
        };
        let out = OutFrame {
            id: clone_opt_string(&frame.id),
            duration_ms,
            runs: Vec::new(),
            cells: out_cells(&frame.cells, &project.styles),
        };
        frames.push(out);
        f += 1;
    }
    OutProject {
        schema_version: SCHEMA_VERSION,
        asset: OutAsset {
            name: project.asset.name.clone(),
            kind: owned(project.asset.kind.as_str()),
            width: project.asset.width,
            height: project.asset.height,
            default_frame_duration_ms: project.asset.default_frame_duration_ms,
            loop_animation: project.asset.loop_animation,
        },
        layout: OutLayout {
            min_width: project.layout.min_width,
            min_height: project.layout.min_height,
            anchor: owned(project.layout.anchor.as_str()),
            overflow: owned(project.layout.overflow.as_str()),
        },
        styles,
        frames,
    }
}

/// A serialized document always ends with a newline.
pub fn finish_encoded(encoded: String) -> (r: String)
    ensures
        r@ == if encoded@.len() > 0 && encoded@.last() == '\n' { encoded@ } else { encoded@.push('\n') },
{
    let chars = crate::text::chars_of(encoded.as_str());
    let mut out = encoded;
    if chars.len() == 0 || chars[chars.len() - 1] != '\n' {
        push_char(&mut out, '\n');
    }
    out
}

} // verus!
