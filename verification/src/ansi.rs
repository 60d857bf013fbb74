use vstd::prelude::*;

use crate::export::{cell_styles_exist, exported_frame};
use crate::model::{CellKey, Color, PaintedCell, Project, TerminalStyle, TextAttr};
use crate::text::{decimal_string, decimal_text, push_char, push_str};

verus! {

broadcast use vstd::std_specs::btree::group_btree_axioms;

/// The SGR code that turns an attribute on.
pub open spec fn attr_code(a: TextAttr) -> Seq<char> {
    match a {
        TextAttr::Bold => "1"@,
        TextAttr::Dim => "2"@,
        TextAttr::Italic => "3"@,
        TextAttr::Underline => "4"@,
        TextAttr::Reverse => "7"@,
    }
}

/// `R;G;B` in decimal.
pub open spec fn rgb_params(c: Color) -> Seq<char> {
    decimal_text(c.r as nat) + ";"@ + decimal_text(c.g as nat) + ";"@ + decimal_text(c.b as nat)
}

/// `;CODE` for each attribute, in order.
pub open spec fn attrs_params(attrs: Seq<TextAttr>) -> Seq<char>
    decreases attrs.len(),
{
    if attrs.len() == 0 {
        Seq::empty()
    } else {
        attrs_params(attrs.drop_last()) + ";"@ + attr_code(attrs.last())
    }
}

/// The escape sequence that switches the terminal to a style: true-color
/// foreground, background when there is one, then the attributes.
pub open spec fn sgr_text(s: TerminalStyle) -> Seq<char> {
    "\x1b[38;2;"@ + rgb_params(s.fg) + match s.bg {
        Some(c) => ";48;2;"@ + rgb_params(c),
        None => Seq::empty(),
    } + attrs_params(s.attrs@) + "m"@
}

/// One cell as ANSI: its character in its style followed by a reset, or a
/// plain space where it is transparent.
pub open spec fn ansi_cell(cells: Map<CellKey, PaintedCell>, styles: Seq<TerminalStyle>, x: int, y: int) -> Seq<char> {
    let k = (y as u16, x as u16);
    if cells.contains_key(k) {
        sgr_text(styles[cells[k].style_index as int]) + seq![cells[k].ch] + "\x1b[0m"@
    } else {
        seq![' ']
    }
}

/// The first `width` cells of row `y` as ANSI.
pub open spec fn ansi_row(cells: Map<CellKey, PaintedCell>, styles: Seq<TerminalStyle>, y: int, width: int) -> Seq<char>
    decreases width,
{
    if width <= 0 {
        Seq::empty()
    } else {
        ansi_row(cells, styles, y, width - 1) + ansi_cell(cells, styles, width - 1, y)
    }
}

/// The first `rows` rows of the canvas as ANSI, joined by newlines.
pub open spec fn ansi_rows(cells: Map<CellKey, PaintedCell>, styles: Seq<TerminalStyle>, width: int, rows: int) -> Seq<char>
    decreases rows,
{
    if rows <= 0 {
        Seq::empty()
    } else if rows == 1 {
        ansi_row(cells, styles, 0, width)
    } else {
        ansi_rows(cells, styles, width, rows - 1).push('\n') + ansi_row(cells, styles, rows - 1, width)
    }
}

/// Appends `R;G;B`.
fn push_rgb(out: &mut String, c: Color)
    ensures
        final(out)@ == old(out)@ + rgb_params(c),
{
    push_str(out, decimal_string(c.r as u64).as_str());
    push_str(out, ";");
    push_str(out, decimal_string(c.g as u64).as_str());
    push_str(out, ";");
    push_str(out, decimal_string(c.b as u64).as_str());
}

/// Appends the escape sequence that switches to `style`.
fn push_sgr(out: &mut String, style: &TerminalStyle)
    ensures
        final(out)@ == old(out)@ + sgr_text(*style),
{
    let ghost start = out@;
    push_str(out, "\x1b[38;2;");
    push_rgb(out, style.fg);
    match style.bg {
        Some(c) => {
            push_str(out, ";48;2;");
            push_rgb(out, c);
        },
        None => {},
    }
    let ghost before_attrs = out@;
    let mut i: usize = 0;
    while i < style.attrs.len()
        invariant
            i <= style.attrs@.len(),
            out@ == before_attrs + attrs_params(style.attrs@.take(i as int)),
        decreases style.attrs.len() - i,
    {
        proof {
            assert(style.attrs@.take(i + 1).drop_last() == style.attrs@.take(i as int));
        }
        push_str(out, ";");
        let code = match style.attrs[i] {
            TextAttr::Bold => "1",
            TextAttr::Dim => "2",
            TextAttr::Italic => "3",
            TextAttr::Underline => "4",
            TextAttr::Reverse => "7",
        };
        push_str(out, code);
        i += 1;
    }
    proof {
        assert(style.attrs@.take(style.attrs@.len() as int) == style.attrs@);
    }
    push_str(out, "m");
}

/// One frame as ANSI text: each painted cell in its style (true-color
/// foreground and background, attributes) followed by a reset, transparent
/// cells as plain spaces, rows separated by newlines. An index past the
/// last frame renders the first frame.
pub fn export_ansi(project: &Project, frame_index: usize) -> (r: String)
    requires
        project.frames@.len() > 0,
        cell_styles_exist(*project),
    ensures
        r@ == ansi_rows(
            exported_frame(*project, frame_index as int),
            project.styles@,
            project.asset.width as int,
            project.asset.height as int,
        ),
{
    let index = if frame_index < project.frames.len() {
        frame_index
    } else {
        0
    };
    let frame = &project.frames[index];
    let ghost cells = frame.cells@;
    let ghost styles = project.styles@;
    assert(cells == exported_frame(*project, frame_index as int));
    let width = project.asset.width;
    let height = project.asset.height;
    let mut output = String::new();
    let mut y: u16 = 0;
    while y < height
        invariant
            y <= height,
            cells == frame.cells@,
            cells == project.frames@[index as int].cells@,
            styles == project.styles@,
            index < project.frames@.len(),
            cell_styles_exist(*project),
            output@ == ansi_rows(cells, styles, width as int, y as int),
        decreases height - y,
    {
        if y > 0 {
            push_char(&mut output, '\n');
        }
        let ghost row_start = output@;
        let mut x: u16 = 0;
        while x < width
            invariant
                x <= width,
                y < height,
                cells == frame.cells@,
                cells == project.frames@[index as int].cells@,
                styles == project.styles@,
                index < project.frames@.len(),
                cell_styles_exist(*project),
                output@ == row_start + ansi_row(cells, styles, y as int, x as int),
            decreases width - x,
        {
            let ghost before = output@;
            match frame.cells.get(&(y, x)) {
                Some(cell) => {
                    assert(cells.contains_key((y, x)));
                    assert(cell.style_index < styles.len());
                    push_sgr(&mut output, &project.styles[cell.style_index]);
                    push_char(&mut output, cell.ch);
                    push_str(&mut output, "\x1b[0m");
                },
                None => {
                    push_char(&mut output, ' ');
                },
            }
            proof {
                assert(output@ == before + ansi_cell(cells, styles, x as int, y as int));
            }
            x += 1;
        }
        y += 1;
    }
    output
}

} // verus!
