use std::collections::{BTreeMap, BTreeSet};
use vstd::prelude::*;

use crate::model::{CellKey, PaintedCell};

verus! {

broadcast use vstd::std_specs::btree::group_btree_axioms;

/// A rectangle of terminal cells on screen: where a widget was drawn.
#[derive(Debug, Clone, Copy, PartialEq, Eq, Structural, Default)]
pub struct ScreenRect {
    pub x: u16,
    pub y: u16,
    pub width: u16,
    pub height: u16,
}

impl ScreenRect {
    /// The empty rectangle at the origin.
    pub fn empty() -> (r: Self)
        ensures
            r == (ScreenRect { x: 0, y: 0, width: 0, height: 0 }),
    {
        ScreenRect { x: 0, y: 0, width: 0, height: 0 }
    }
}

/// `(column, row)` lies inside the non-empty rectangle `area`.
pub open spec fn spec_rect_contains(area: ScreenRect, column: u16, row: u16) -> bool {
    &&& area.width > 0
    &&& area.height > 0
    &&& area.x <= column < area.x + area.width
    &&& area.y <= row < area.y + area.height
}

/// Whether the screen cell `(column, row)` lies inside `area`.
pub fn rect_contains(area: ScreenRect, column: u16, row: u16) -> (r: bool)
    ensures
        r == spec_rect_contains(area, column, row),
{
    area.width > 0 && area.height > 0 && column >= area.x && row >= area.y && (column as u32) < (area.x as u32)
        + (area.width as u32) && (row as u32) < (area.y as u32) + (area.height as u32)
}

/// A `width` by `height` rectangle centered in `area`, shrunk to fit it.
pub fn centered_rect(width: u16, height: u16, area: ScreenRect) -> (r: ScreenRect)
    requires
        area.x + area.width <= u16::MAX,
        area.y + area.height <= u16::MAX,
    ensures
        r.width == if width < area.width { width } else { area.width },
        r.height == if height < area.height { height } else { area.height },
        r.x == area.x + (area.width - r.width) / 2,
        r.y == area.y + (area.height - r.height) / 2,
{
    let width = if width < area.width { width } else { area.width };
    let height = if height < area.height { height } else { area.height };
    let x = area.x + (area.width - width) / 2;
    let y = area.y + (area.height - height) / 2;
    ScreenRect { x, y, width, height }
}

/// How many slots of `slot_width` fit across `width`, at least one.
pub fn palette_columns(width: u16, slot_width: u16) -> (r: u16)
    requires
        slot_width > 0,
    ensures
        r == if width / slot_width > 0 { width / slot_width } else { 1 },
{
    let c = width / slot_width;
    if c > 0 { c } else { 1 }
}

/// How many rows `item_count` items take in `columns` columns, capped at
/// `u16::MAX`.
pub fn palette_rows(item_count: usize, columns: u16) -> (r: u16)
    ensures
        ({
            let c: int = if columns > 0 { columns as int } else { 1 };
            let rows: int = (item_count as int + c - 1) / c;
            r == if rows <= u16::MAX { rows } else { u16::MAX as int }
        }),
{
    let c: usize = if columns > 0 { columns as usize } else { 1 };
    proof {
        assert(item_count % c != 0 ==> item_count / c < usize::MAX) by (nonlinear_arith)
            requires c >= 1, item_count <= usize::MAX;
    }
    let rows = item_count / c + if item_count % c == 0 { 0 } else { 1 };
    proof {
        let ci = c as int;
        let n = item_count as int;
        assert((n + ci - 1) / ci == n / ci + if n % ci == 0 { 0int } else { 1int }) by (nonlinear_arith)
            requires ci > 0, n >= 0;
    }
    if rows <= 65535 { rows as u16 } else { 65535 }
}

/// The screen cell where item `index` of a palette laid out in `columns`
/// columns of `slot_width` starts, if it lies inside `area`.
pub open spec fn spec_palette_position(area: ScreenRect, columns: u16, slot_width: u16, index: int) -> Option<(u16, u16)> {
    let c: int = if columns > 0 { columns as int } else { 1 };
    let row = index / c;
    let column = index % c;
    let offset = column * slot_width;
    let x_offset: int = if offset <= u16::MAX { offset } else { u16::MAX as int };
    if row <= u16::MAX && column <= u16::MAX && area.x + x_offset < area.x + area.width && area.y + row < area.y
        + area.height {
        Some(((area.x + x_offset) as u16, (area.y + row) as u16))
    } else {
        None::<(u16, u16)>
    }
}

/// The screen cell where item `index` of a palette starts, if it lies
/// inside `area`.
pub fn palette_position(area: ScreenRect, columns: u16, slot_width: u16, index: usize) -> (r: Option<(u16, u16)>)
    requires
        area.x + area.width <= u16::MAX,
        area.y + area.height <= u16::MAX,
    ensures
        r == spec_palette_position(area, columns, slot_width, index as int),
{
    let c: usize = if columns > 0 { columns as usize } else { 1 };
    let row = index / c;
    let column = index % c;
    if row > 65535 || column > 65535 {
        return None;
    }
    let column16 = column as u16;
    proof {
        assert((column16 as int) * (slot_width as int) <= 65535 * 65535) by (nonlinear_arith)
            requires column16 <= 65535, slot_width <= 65535;
        assert((column16 as int) * (slot_width as int) >= 0) by (nonlinear_arith)
            requires column16 >= 0, slot_width >= 0;
    }
    let product = (column16 as u32) * (slot_width as u32);
    let offset: u16 = if product > 65535 { 65535 } else { product as u16 };
    if offset >= area.width {
        return None;
    }
    let row16 = row as u16;
    if row16 >= area.height {
        return None;
    }
    Some((area.x + offset, area.y + row16))
}

/// The index of the palette item under `(column, row)`: the slot of width
/// `slot_width` there, counted row by row, when the cell lies inside `area`
/// and the slot holds one of `item_count` items.
pub open spec fn spec_hit_palette_item(area: ScreenRect, slot_width: u16, column: u16, row: u16, item_count: int) -> Option<int> {
    let columns: int = if area.width / slot_width > 0 { (area.width / slot_width) as int } else { 1 };
    let index: int = (row - area.y) * columns + (column - area.x) / (slot_width as int);
    if spec_rect_contains(area, column, row) && index < item_count {
        Some(index)
    } else {
        None
    }
}

/// The index of the palette item under `(column, row)`, when that cell lies
/// inside `area` and the slot there holds one of `item_count` items.
pub fn hit_palette_item(area: ScreenRect, slot_width: u16, column: u16, row: u16, item_count: usize) -> (r: Option<usize>)
    requires
        slot_width > 0,
    ensures
        r == match spec_hit_palette_item(area, slot_width, column, row, item_count as int) {
            Some(i) => Some(i as usize),
            None => None::<usize>,
        },
        r matches Some(i) ==> i < item_count,
{
    if !rect_contains(area, column, row) {
        return None;
    }
    let columns = palette_columns(area.width, slot_width);
    let local_x = column - area.x;
    let local_y = row - area.y;
    let item_column = local_x / slot_width;
    proof {
        assert((local_y as int) * (columns as int) <= 65535 * 65535) by (nonlinear_arith)
            requires local_y <= 65535, columns <= 65535;
        assert((local_y as int) * (columns as int) >= 0) by (nonlinear_arith)
            requires local_y >= 0, columns >= 0;
    }
    let index = (local_y as usize) * (columns as usize) + (item_column as usize);
    if index < item_count {
        Some(index)
    } else {
        None
    }
}

/// The channel value a slider `width` cells wide shows at `offset`:
/// `round(offset * 255 / (width - 1))`, the offset clamped to the slider.
pub open spec fn spec_slider_value(width: u16, offset: u16) -> int {
    if width <= 1 {
        0
    } else {
        let d = width - 1;
        let o: int = if offset < d { offset as int } else { d };
        (o * 255 + d / 2) / d
    }
}

/// The channel value at `offset` cells into a slider `width` cells wide.
pub fn rgb_slider_value_for_offset(width: u16, offset: u16) -> (r: u8)
    ensures
        r == spec_slider_value(width, offset),
{
    if width <= 1 {
        return 0;
    }
    let denominator = (width - 1) as u32;
    let clamped = if (offset as u32) < denominator { offset as u32 } else { denominator };
    proof {
        assert(clamped * 255 <= denominator * 255) by (nonlinear_arith)
            requires clamped <= denominator;
        assert(denominator * 255 <= 65535 * 255) by (nonlinear_arith)
            requires denominator <= 65535;
        assert(((clamped as int) * 255 + (denominator as int) / 2) / (denominator as int) <= 255) by (nonlinear_arith)
            requires clamped <= denominator, denominator >= 1;
    }
    let value = (clamped * 255 + denominator / 2) / denominator;
    value as u8
}

/// The offset at which a slider `width` cells wide shows `value`.
pub fn rgb_slider_offset_for_value(width: u16, value: u8) -> (r: u16)
    ensures
        r == if width <= 1 { 0 } else { ((value as int) * (width - 1) + 127) / 255 },
{
    if width <= 1 {
        return 0;
    }
    let max_offset = (width - 1) as u32;
    proof {
        assert((value as int) * (max_offset as int) <= 255 * 65535) by (nonlinear_arith)
            requires value <= 255, max_offset <= 65535;
        assert((value as int) * (max_offset as int) >= 0) by (nonlinear_arith)
            requires value >= 0, max_offset >= 0;
        assert(((value as int) * (max_offset as int) + 127) / 255 <= 65535) by (nonlinear_arith)
            requires value <= 255, max_offset <= 65535;
    }
    (((value as u32) * max_offset + 127) / 255) as u16
}

/// The value the slider track `area` gives the column `column`, clamped
/// to the track.
pub open spec fn spec_slider_value_at(area: ScreenRect, column: u16) -> int {
    if area.width <= 1 {
        0
    } else {
        let max_x: int = if area.x + area.width - 1 <= u16::MAX { area.x + area.width - 1 } else { u16::MAX as int };
        let clamped: int = if column < area.x { area.x as int } else if column > max_x { max_x } else { column as int };
        spec_slider_value(area.width, (clamped - area.x) as u16)
    }
}

/// The channel value under screen column `column` of a slider drawn in
/// `area`, the column clamped to the slider.
pub fn rgb_slider_value_at(area: ScreenRect, column: u16) -> (r: u8)
    ensures
        r == spec_slider_value_at(area, column),
{
    if area.width <= 1 {
        return 0;
    }
    let max_x = area.x.saturating_add(area.width - 1);
    let clamped = if column < area.x {
        area.x
    } else if column > max_x {
        max_x
    } else {
        column
    };
    rgb_slider_value_for_offset(area.width, clamped - area.x)
}

/// A rectangle of canvas cells.
#[derive(Debug, Clone, Copy, PartialEq, Eq, Structural)]
pub struct CellRect {
    pub x: u16,
    pub y: u16,
    pub width: u16,
    pub height: u16,
}

/// The canvas cell `(x, y)` lies inside `rect` (edges saturating at
/// `u16::MAX`).
pub open spec fn spec_cell_rect_contains(rect: CellRect, x: u16, y: u16) -> bool {
    &&& rect.x <= x
    &&& rect.y <= y
    &&& x < if rect.x + rect.width <= u16::MAX { rect.x + rect.width } else { u16::MAX as int }
    &&& y < if rect.y + rect.height <= u16::MAX { rect.y + rect.height } else { u16::MAX as int }
}

/// The right edge of `rect`, one past its last column, saturating.
pub open spec fn right_edge(rect: CellRect) -> int {
    if rect.x + rect.width <= u16::MAX { rect.x + rect.width } else { u16::MAX as int }
}

/// The bottom edge of `rect`, one past its last row, saturating.
pub open spec fn bottom_edge(rect: CellRect) -> int {
    if rect.y + rect.height <= u16::MAX { rect.y + rect.height } else { u16::MAX as int }
}

/// The canvas cell `(x, y)` lies on the outline of `rect`.
pub open spec fn spec_cell_rect_border(rect: CellRect, x: u16, y: u16) -> bool {
    &&& spec_cell_rect_contains(rect, x, y)
    &&& (x == rect.x || y == rect.y || x + 1 == right_edge(rect) || y + 1 == bottom_edge(rect))
}

impl CellRect {
    /// The smallest rectangle holding both corner cells.
    pub fn from_points(start: (u16, u16), end: (u16, u16)) -> (r: Self)
        requires
            (if start.0 < end.0 { end.0 - start.0 } else { start.0 - end.0 }) < u16::MAX,
            (if start.1 < end.1 { end.1 - start.1 } else { start.1 - end.1 }) < u16::MAX,
        ensures
            r.x == if start.0 < end.0 { start.0 } else { end.0 },
            r.y == if start.1 < end.1 { start.1 } else { end.1 },
            r.x + r.width - 1 == if start.0 < end.0 { end.0 } else { start.0 },
            r.y + r.height - 1 == if start.1 < end.1 { end.1 } else { start.1 },
            r.width >= 1,
            r.height >= 1,
    {
        let x = if start.0 < end.0 { start.0 } else { end.0 };
        let y = if start.1 < end.1 { start.1 } else { end.1 };
        let max_x = if start.0 < end.0 { end.0 } else { start.0 };
        let max_y = if start.1 < end.1 { end.1 } else { start.1 };
        CellRect { x, y, width: max_x - x + 1, height: max_y - y + 1 }
    }

    /// Whether the canvas cell `(x, y)` lies inside this rectangle.
    pub fn contains(self, x: u16, y: u16) -> (r: bool)
        ensures
            r == spec_cell_rect_contains(self, x, y),
    {
        x >= self.x && y >= self.y && x < self.x.saturating_add(self.width) && y < self.y.saturating_add(
            self.height,
        )
    }

    /// Whether the canvas cell `(x, y)` lies on the outline of this
    /// rectangle.
    pub fn is_border(self, x: u16, y: u16) -> (r: bool)
        ensures
            r == spec_cell_rect_border(self, x, y),
    {
        self.contains(x, y) && (x == self.x || y == self.y || x + 1 == self.x.saturating_add(self.width)
            || y + 1 == self.y.saturating_add(self.height))
    }
}

/// The updates that clear every cell of `rect` to transparent, keyed by
/// `(y, x)`.
pub fn clear_rect_updates(rect: CellRect) -> (r: BTreeMap<CellKey, Option<PaintedCell>>)
    ensures
        forall|k: CellKey| #[trigger] r@.contains_key(k) <==> spec_cell_rect_contains(rect, k.1, k.0),
        forall|k: CellKey| #[trigger] r@.contains_key(k) ==> r@[k] is None,
{
    let mut updates: BTreeMap<CellKey, Option<PaintedCell>> = BTreeMap::new();
    let y_end = rect.y.saturating_add(rect.height);
    let x_end = rect.x.saturating_add(rect.width);
    let mut y = rect.y;
    while y < y_end
        invariant
            y_end == bottom_edge(rect),
            x_end == right_edge(rect),
            rect.y <= y,
            y <= y_end || y == rect.y,
            forall|k: CellKey| #[trigger] updates@.contains_key(k) <==> (spec_cell_rect_contains(rect, k.1, k.0) && k.0 < y),
            forall|k: CellKey| #[trigger] updates@.contains_key(k) ==> updates@[k] is None,
        decreases y_end - y,
    {
        let mut x = rect.x;
        while x < x_end
            invariant
                y_end == bottom_edge(rect),
                x_end == right_edge(rect),
                rect.y <= y < y_end,
                rect.x <= x,
                x <= x_end || x == rect.x,
                forall|k: CellKey| #[trigger] updates@.contains_key(k) <==> (spec_cell_rect_contains(rect, k.1, k.0)
                    && (k.0 < y || (k.0 == y && k.1 < x))),
                forall|k: CellKey| #[trigger] updates@.contains_key(k) ==> updates@[k] is None,
            decreases x_end - x,
        {
            updates.insert((y, x), None);
            x += 1;
        }
        y += 1;
    }
    updates
}

/// `value` moved by `delta`, saturating at zero and capped at `max_value`
/// when moving forward.
pub open spec fn spec_offset_coord(value: u16, delta: i16, max_value: u16) -> u16 {
    (if delta < 0 {
        if value + delta >= 0 { (value + delta) as int } else { 0 }
    } else {
        let moved: int = if value + delta <= u16::MAX { value + delta } else { u16::MAX as int };
        if moved < max_value { moved } else { max_value as int }
    }) as u16
}

/// A coordinate moves by exactly `delta` when it stays at or above zero
/// going back, or at or below `max_value` going forward; otherwise it stops
/// at zero, or at `max_value`.
pub proof fn lemma_offset_moves_by_delta(value: u16, delta: i16, max_value: u16)
    ensures
        delta < 0 && value + delta >= 0 ==> spec_offset_coord(value, delta, max_value) == value + delta,
        delta < 0 && value + delta < 0 ==> spec_offset_coord(value, delta, max_value) == 0,
        delta >= 0 && value + delta <= max_value ==> spec_offset_coord(value, delta, max_value) == value + delta,
        delta >= 0 && value + delta > max_value ==> spec_offset_coord(value, delta, max_value) == max_value,
{
}

/// `value` moved by `delta`, saturating at zero and capped at `max_value`
/// when moving forward.
pub fn offset_coord(value: u16, delta: i16, max_value: u16) -> (r: u16)
    ensures
        r == spec_offset_coord(value, delta, max_value),
        delta < 0 && value + delta >= 0 ==> r == value + delta,
        delta < 0 && value + delta < 0 ==> r == 0,
        delta >= 0 && value + delta <= max_value ==> r == value + delta,
        delta >= 0 && value + delta > max_value ==> r == max_value,
{
    proof {
        lemma_offset_moves_by_delta(value, delta, max_value);
    }
    if delta < 0 {
        let magnitude: u16 = if delta == -32768 { 32768 } else { (-delta) as u16 };
        value.saturating_sub(magnitude)
    } else {
        let moved = value.saturating_add(delta as u16);
        if moved < max_value { moved } else { max_value }
    }
}

/// The symbol a selection border shows at `(x, y)`: `+` at corners, `|`
/// on the sides, `-` on top and bottom, a space inside.
pub open spec fn border_text(selection: CellRect, x: u16, y: u16) -> Seq<char> {
    let vertical = x == selection.x || x + 1 == right_edge(selection);
    let horizontal = y == selection.y || y + 1 == bottom_edge(selection);
    if vertical && horizontal {
        "+"@
    } else if vertical {
        "|"@
    } else if horizontal {
        "-"@
    } else {
        " "@
    }
}

/// Which border glyph marks the selection outline at `(x, y)`: a corner,
/// a side, a top or bottom edge, or nothing.
pub fn selection_border_symbol(selection: CellRect, x: u16, y: u16) -> (r: &'static str)
    requires
        x < u16::MAX,
        y < u16::MAX,
    ensures
        r@ == border_text(selection, x, y),
{
    let left = x == selection.x;
    let right = x + 1 == selection.x.saturating_add(selection.width);
    let top = y == selection.y;
    let bottom = y + 1 == selection.y.saturating_add(selection.height);
    if (left || right) && (top || bottom) {
        "+"
    } else if left || right {
        "|"
    } else if top || bottom {
        "-"
    } else {
        " "
    }
}

/// `(x, y)` lies in the bounding box of the two corners.
pub open spec fn in_bounding_box(p: (u16, u16), a: (u16, u16), b: (u16, u16)) -> bool {
    &&& (a.0 <= p.0 <= b.0 || b.0 <= p.0 <= a.0)
    &&& (a.1 <= p.1 <= b.1 || b.1 <= p.1 <= a.1)
}

/// The distance between two values on one axis.
pub open spec fn dist(a: int, b: int) -> int {
    if a <= b { b - a } else { a - b }
}

/// The cells Bresenham's walk visits from `(x, y)`, with error term `err`,
/// to `(x1, y1)`: each step moves along x when twice the error is at least
/// `dy` (a negative step size), and along y when it is at most `dx`, with
/// the error adjusted for each move. `fuel` bounds the steps left.
pub open spec fn line_walk(
    x: int,
    y: int,
    err: int,
    x1: int,
    y1: int,
    dx: int,
    dy: int,
    sx: int,
    sy: int,
    fuel: nat,
) -> Set<(u16, u16)>
    decreases fuel,
{
    let here = set![(x as u16, y as u16)];
    if x == x1 && y == y1 {
        here
    } else {
        let e2 = 2 * err;
        let nx = if e2 >= dy { x + sx } else { x };
        let err1 = if e2 >= dy { err + dy } else { err };
        let ny = if e2 <= dx { y + sy } else { y };
        let err2 = if e2 <= dx { err1 + dx } else { err1 };
        let nf = dist(nx, x1) + dist(ny, y1);
        if 0 <= nf < fuel {
            here.union(line_walk(nx, ny, err2, x1, y1, dx, dy, sx, sy, nf as nat))
        } else {
            here
        }
    }
}

/// The cells of the straight line from `start` to `end` by Bresenham's
/// algorithm, as `(x, y)` points.
pub open spec fn line_set(start: (u16, u16), end: (u16, u16)) -> Set<(u16, u16)> {
    let dx = dist(start.0 as int, end.0 as int);
    let dy = -dist(start.1 as int, end.1 as int);
    let sx: int = if start.0 < end.0 { 1 } else { -1 };
    let sy: int = if start.1 < end.1 { 1 } else { -1 };
    line_walk(start.0 as int, start.1 as int, dx + dy, end.0 as int, end.1 as int, dx, dy, sx, sy, (dx - dy) as nat)
}

/// The cells of a straight line from `start` to `end` by Bresenham's
/// algorithm, as `(x, y)` points: exactly `line_set`; both ends are on it,
/// every point lies in the box the two ends span, and there is one point
/// per column or per row, whichever the line spans more of.
pub fn line_points(start: (u16, u16), end: (u16, u16)) -> (r: BTreeSet<(u16, u16)>)
    ensures
        r@ == line_set(start, end),
        r@.contains(start),
        r@.contains(end),
        forall|p: (u16, u16)| #[trigger] r@.contains(p) ==> in_bounding_box(p, start, end),
        r@.len() == (if dist(start.0 as int, end.0 as int) >= dist(start.1 as int, end.1 as int) {
            dist(start.0 as int, end.0 as int)
        } else {
            dist(start.1 as int, end.1 as int)
        }) + 1,
{
    let mut points: BTreeSet<(u16, u16)> = BTreeSet::new();
    let mut x0: i64 = start.0 as i64;
    let mut y0: i64 = start.1 as i64;
    let x1: i64 = end.0 as i64;
    let y1: i64 = end.1 as i64;
    let dx: i64 = if x1 >= x0 { x1 - x0 } else { x0 - x1 };
    let sx: i64 = if x0 < x1 { 1 } else { -1 };
    let big_dy: i64 = if y1 >= y0 { y1 - y0 } else { y0 - y1 };
    let dy: i64 = -big_dy;
    let sy: i64 = if y0 < y1 { 1 } else { -1 };
    let mut error: i64 = dx + dy;
    let ghost mut rx: int = dx as int;
    let ghost mut ry: int = big_dy as int;
    let ghost mut steps: int = 0;
    loop
        invariant_except_break
            points@.len() == steps,
            dx >= big_dy ==> forall|p: (u16, u16)| #[trigger] points@.contains(p) ==> dist(p.0 as int, x1 as int) > rx,
            big_dy > dx ==> forall|p: (u16, u16)| #[trigger] points@.contains(p) ==> dist(p.1 as int, y1 as int) > ry,
        invariant
            dx >= big_dy ==> 2 * error >= dy,
            big_dy > dx ==> 2 * error <= dx,
            steps >= 0,
            dx >= big_dy ==> rx == dx - steps,
            big_dy > dx ==> ry == big_dy - steps,
            points@.finite(),
            0 <= dx <= 65535,
            0 <= big_dy <= 65535,
            dy == -big_dy,
            sx == 1 || sx == -1,
            sy == 1 || sy == -1,
            x1 == end.0,
            y1 == end.1,
            dx == 0 || (sx == 1) == (start.0 < end.0),
            big_dy == 0 || (sy == 1) == (start.1 < end.1),
            dx == (if start.0 <= end.0 { end.0 - start.0 } else { start.0 - end.0 }),
            big_dy == (if start.1 <= end.1 { end.1 - start.1 } else { start.1 - end.1 }),
            0 <= rx <= dx,
            0 <= ry <= big_dy,
            x1 - x0 == sx * rx,
            y1 - y0 == sy * ry,
            error == dx - big_dy + big_dy * rx - dx * ry,
            points@.contains(start) || (x0 == start.0 && y0 == start.1),
            forall|p: (u16, u16)| #[trigger] points@.contains(p) ==> in_bounding_box(p, start, end),
            line_set(start, end) == points@.union(line_walk(x0 as int, y0 as int, error as int, x1 as int, y1 as int, dx as int, dy as int, sx as int, sy as int, (rx + ry) as nat)),
        ensures
            points@ == line_set(start, end),
            points@.contains(start),
            points@.contains(end),
            forall|p: (u16, u16)| #[trigger] points@.contains(p) ==> in_bounding_box(p, start, end),
            points@.len() == (if dx >= big_dy { dx } else { big_dy }) + 1,
        decreases rx + ry,
    {
        proof {
            if sx == 1 {
                assert(sx * rx == rx) by (nonlinear_arith) requires sx == 1;
            } else {
                assert(sx * rx == -rx) by (nonlinear_arith) requires sx == -1;
            }
            if sy == 1 {
                assert(sy * ry == ry) by (nonlinear_arith) requires sy == 1;
            } else {
                assert(sy * ry == -ry) by (nonlinear_arith) requires sy == -1;
            }
            assert(0 <= x0 <= 65535 && 0 <= y0 <= 65535);
            assert(in_bounding_box((x0 as u16, y0 as u16), start, end));
            assert(-(65535 * 65535) <= big_dy * rx <= 65535 * 65535) by (nonlinear_arith)
                requires 0 <= big_dy <= 65535, 0 <= rx <= 65535;
            assert(-(65535 * 65535) <= dx * ry <= 65535 * 65535) by (nonlinear_arith)
                requires 0 <= dx <= 65535, 0 <= ry <= 65535;
        }
        let ghost before_points = points@;
        if 0 <= x0 && x0 <= 65535 && 0 <= y0 && y0 <= 65535 {
            points.insert((x0 as u16, y0 as u16));
        }
        let ghost gx = x0 as int;
        let ghost gy = y0 as int;
        let ghost ge = error as int;
        let ghost gf = rx + ry;
        proof {
            assert(points@ == before_points.insert((x0 as u16, y0 as u16)));
            assert(dist(x0 as int, x1 as int) == rx);
            assert(dist(y0 as int, y1 as int) == ry);
            assert(!before_points.contains((x0 as u16, y0 as u16)));
            assert(points@.len() == steps + 1);
        }
        if x0 == x1 && y0 == y1 {
            proof {
                assert(line_walk(gx, gy, ge, x1 as int, y1 as int, dx as int, dy as int, sx as int, sy as int, gf as nat)
                    == set![(x0 as u16, y0 as u16)]);
                assert(points@ =~= before_points.union(set![(x0 as u16, y0 as u16)]));
            }
            break;
        }
        let double_error = 2 * error;
        proof {
            if rx == 0 {
                assert(ry >= 1);
                assert(dx * ry >= dx) by (nonlinear_arith)
                    requires ry >= 1, dx >= 0;
                assert(double_error < dy);
            }
            if ry == 0 {
                assert(rx >= 1);
                assert(big_dy * rx >= big_dy) by (nonlinear_arith)
                    requires rx >= 1, big_dy >= 0;
                assert(double_error > dx);
            }
        }
        if double_error >= dy {
            error += dy;
            x0 += sx;
            proof {
                if sx == 1 {
                    assert(sx * rx == rx) by (nonlinear_arith) requires sx == 1;
                    assert(sx * (rx - 1) == rx - 1) by (nonlinear_arith) requires sx == 1;
                } else {
                    assert(sx * rx == -rx) by (nonlinear_arith) requires sx == -1;
                    assert(sx * (rx - 1) == -(rx - 1)) by (nonlinear_arith) requires sx == -1;
                }
                rx = rx - 1;
                assert(big_dy * (rx + 1) == big_dy * rx + big_dy) by (nonlinear_arith);
            }
        }
        if double_error <= dx {
            error += dx;
            y0 += sy;
            proof {
                if sy == 1 {
                    assert(sy * ry == ry) by (nonlinear_arith) requires sy == 1;
                    assert(sy * (ry - 1) == ry - 1) by (nonlinear_arith) requires sy == 1;
                } else {
                    assert(sy * ry == -ry) by (nonlinear_arith) requires sy == -1;
                    assert(sy * (ry - 1) == -(ry - 1)) by (nonlinear_arith) requires sy == -1;
                }
                ry = ry - 1;
                assert(dx * (ry + 1) == dx * ry + dx) by (nonlinear_arith);
            }
        }
        proof {
            if sx == 1 {
                assert(sx * rx == rx) by (nonlinear_arith) requires sx == 1;
            } else {
                assert(sx * rx == -rx) by (nonlinear_arith) requires sx == -1;
            }
            if sy == 1 {
                assert(sy * ry == ry) by (nonlinear_arith) requires sy == 1;
            } else {
                assert(sy * ry == -ry) by (nonlinear_arith) requires sy == -1;
            }
            assert(dist(x0 as int, x1 as int) == rx);
            assert(dist(y0 as int, y1 as int) == ry);
            assert(rx + ry < gf);
            let rest = line_walk(x0 as int, y0 as int, error as int, x1 as int, y1 as int, dx as int, dy as int, sx as int, sy as int, (rx + ry) as nat);
            assert(line_walk(gx, gy, ge, x1 as int, y1 as int, dx as int, dy as int, sx as int, sy as int, gf as nat)
                == set![(gx as u16, gy as u16)].union(rest));
            assert(before_points.union(set![(gx as u16, gy as u16)].union(rest)) =~= points@.union(rest));
            steps = steps + 1;
        }
    }
    points
}

/// The outline cells of `rect`, as `(x, y)` points.
pub fn rectangle_points(rect: CellRect) -> (r: BTreeSet<(u16, u16)>)
    ensures
        forall|p: (u16, u16)| #[trigger] r@.contains(p) <==> spec_cell_rect_border(rect, p.0, p.1),
{
    let mut points: BTreeSet<(u16, u16)> = BTreeSet::new();
    let y_end = rect.y.saturating_add(rect.height);
    let x_end = rect.x.saturating_add(rect.width);
    let mut y = rect.y;
    while y < y_end
        invariant
            y_end == bottom_edge(rect),
            x_end == right_edge(rect),
            rect.y <= y,
            forall|p: (u16, u16)| #[trigger] points@.contains(p) <==> (spec_cell_rect_border(rect, p.0, p.1) && p.1 < y),
        decreases y_end - y,
    {
        let mut x = rect.x;
        while x < x_end
            invariant
                y_end == bottom_edge(rect),
                x_end == right_edge(rect),
                rect.y <= y < y_end,
                rect.x <= x,
                forall|p: (u16, u16)| #[trigger] points@.contains(p) <==> (spec_cell_rect_border(rect, p.0, p.1)
                    && (p.1 < y || (p.1 == y && p.0 < x))),
            decreases x_end - x,
        {
            if rect.is_border(x, y) {
                points.insert((x, y));
            }
            x += 1;
        }
        y += 1;
    }
    points
}

/// Leaves a blank sidebar row: moves the row cursor down one, unless it is
/// already at the last row.
pub fn draw_sidebar_spacer(y: &mut u16, max_y: u16)
    ensures
        *final(y) == if *old(y) < max_y {
            *old(y) + 1
        } else {
            *old(y) as int
        },
{
    if *y < max_y {
        *y = *y + 1;
    }
}

} // verus!
