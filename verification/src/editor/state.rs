use std::collections::BTreeMap;
use vstd::prelude::*;
use vstd::std_specs::iter::IteratorSpec;

use crate::editor::controls::{
    ColorControl, ColorTarget, ModalAction, PaletteHover, RgbChannel, RgbControl, Screen,
    SelectionAction, Tool, TopAction, WelcomeAction,
};
use crate::editor::geometry::{CellRect, ScreenRect};
use crate::editor::history::{
    apply_updates, change, changes_of, opt_cell, revert, reapply, CellChange, Stamp, Stroke,
};
use crate::model::{CellKey, Color, PaintedCell, Project, TextAttr};
use crate::text::owned;

verus! {

broadcast use vstd::std_specs::btree::group_btree_axioms;

/// The width of a canvas made without other instructions.
pub const DEFAULT_NEW_WIDTH: u16 = 48;
/// The height of a canvas made without other instructions.
pub const DEFAULT_NEW_HEIGHT: u16 = 16;

/// A clickable control and where it was drawn.
#[derive(Debug, Clone, Copy)]
pub struct ButtonHit<T> {
    pub action: T,
    pub area: ScreenRect,
}

/// The dialog the editor shows, with what has been typed into it.
#[derive(Debug)]
pub enum Modal {
    NewImage { input: String, target_path: Option<String> },
    NewAnimation { input: String, target_path: Option<String> },
    OpenFile { input: String },
    SaveAs { input: String },
    OverwriteConfirm { path: String },
    BrushChar { input: String },
    TextInput { input: String, start: (u16, u16) },
    NewStyle { input: String },
    RenameStyle { input: String },
    SetFg { input: String },
    SetBg { input: String },
    RgbInput { color: Color },
    ExportText { input: String },
    ExportAnsi { input: String },
    ColorPicker,
    ExportMenu,
    ToolMenu,
    QuitConfirm,
}

/// A selection being dragged: where it came from, its cells, where the
/// mouse grabbed it and where it would land.
#[derive(Debug)]
pub struct MovingSelection {
    pub source: CellRect,
    pub stamp: Stamp,
    pub grab_offset: (u16, u16),
    pub destination: (u16, u16),
}

/// A line or rectangle being dragged out.
#[derive(Debug, Clone, Copy, PartialEq, Eq)]
pub struct ShapeDrag {
    pub tool: Tool,
    pub start: (u16, u16),
    pub end: (u16, u16),
}

/// Where each clickable part of the screen was last drawn.
#[derive(Debug, Clone)]
pub struct HitAreas {
    pub canvas_area: ScreenRect,
    pub tool_button_area: ScreenRect,
    pub brush_button_area: ScreenRect,
    pub color_palette_area: ScreenRect,
    pub recent_color_palette_area: ScreenRect,
    pub character_palette_area: ScreenRect,
    pub color_control_areas: Vec<ButtonHit<ColorControl>>,
    pub attr_button_areas: Vec<ButtonHit<TextAttr>>,
    pub selection_action_areas: Vec<ButtonHit<SelectionAction>>,
    pub more_colors_button_area: ScreenRect,
    pub rgb_button_area: ScreenRect,
    pub welcome_action_areas: Vec<ButtonHit<WelcomeAction>>,
    pub top_action_areas: Vec<ButtonHit<TopAction>>,
    pub modal_tool_areas: Vec<ButtonHit<Tool>>,
    pub modal_action_areas: Vec<ButtonHit<ModalAction>>,
    pub modal_color_areas: Vec<ButtonHit<usize>>,
    pub modal_rgb_areas: Vec<ButtonHit<RgbControl>>,
    pub modal_area: ScreenRect,
}

impl HitAreas {
    /// No control drawn anywhere yet.
    pub fn empty() -> (r: Self)
        ensures
            r.color_control_areas@.len() == 0,
            r.attr_button_areas@.len() == 0,
            r.selection_action_areas@.len() == 0,
            r.welcome_action_areas@.len() == 0,
            r.top_action_areas@.len() == 0,
            r.modal_tool_areas@.len() == 0,
            r.modal_action_areas@.len() == 0,
            r.modal_color_areas@.len() == 0,
            r.modal_rgb_areas@.len() == 0,
            r.canvas_area == (ScreenRect { x: 0, y: 0, width: 0, height: 0 }),
            r.modal_area == (ScreenRect { x: 0, y: 0, width: 0, height: 0 }),
    {
        HitAreas {
            canvas_area: ScreenRect::empty(),
            tool_button_area: ScreenRect::empty(),
            brush_button_area: ScreenRect::empty(),
            color_palette_area: ScreenRect::empty(),
            recent_color_palette_area: ScreenRect::empty(),
            character_palette_area: ScreenRect::empty(),
            color_control_areas: Vec::new(),
            attr_button_areas: Vec::new(),
            selection_action_areas: Vec::new(),
            more_colors_button_area: ScreenRect::empty(),
            rgb_button_area: ScreenRect::empty(),
            welcome_action_areas: Vec::new(),
            top_action_areas: Vec::new(),
            modal_tool_areas: Vec::new(),
            modal_action_areas: Vec::new(),
            modal_color_areas: Vec::new(),
            modal_rgb_areas: Vec::new(),
            modal_area: ScreenRect::empty(),
        }
    }
}

/// What the mouse is over.
#[derive(Debug, Clone, Copy)]
pub struct HoverState {
    pub palette: Option<PaletteHover>,
    pub recent_color: Option<usize>,
    pub color_control: Option<ColorControl>,
    pub attr: Option<TextAttr>,
    pub selection_action: Option<SelectionAction>,
    pub welcome_action: Option<WelcomeAction>,
    pub top_action: Option<TopAction>,
    pub tool_button: bool,
    pub brush_button: bool,
    pub more_colors_button: bool,
    pub rgb_button: bool,
    pub modal_tool: Option<Tool>,
    pub modal_action: Option<ModalAction>,
    pub modal_color: Option<usize>,
    pub rgb_control: Option<RgbControl>,
    pub canvas_cell: Option<CellKey>,
}

impl HoverState {
    /// The mouse over nothing.
    pub fn none() -> (r: Self)
        ensures
            r.palette is None,
            r.canvas_cell is None,
            r.modal_tool is None,
            r.modal_action is None,
            r.top_action is None,
            !r.tool_button,
    {
        HoverState {
            palette: None,
            recent_color: None,
            color_control: None,
            attr: None,
            selection_action: None,
            welcome_action: None,
            top_action: None,
            tool_button: false,
            brush_button: false,
            more_colors_button: false,
            rgb_button: false,
            modal_tool: None,
            modal_action: None,
            modal_color: None,
            rgb_control: None,
            canvas_cell: None,
        }
    }
}

/// The whole editor: the document, the tools, the edit history and what the
/// screen shows.
pub struct AppState {
    pub screen: Screen,
    pub project: Project,
    pub file_path: Option<String>,
    pub dirty: bool,
    pub tool: Tool,
    pub brush_char: char,
    pub current_style: usize,
    pub current_frame_index: usize,
    pub onion_skin: bool,
    pub selection: Option<CellRect>,
    pub selection_drag_anchor: Option<(u16, u16)>,
    pub moving_selection: Option<MovingSelection>,
    pub shape_drag: Option<ShapeDrag>,
    pub stamps: Vec<Stamp>,
    pub current_stamp_index: Option<usize>,
    pub areas: HitAreas,
    pub recent_extra_colors: Vec<Color>,
    pub color_picker_scroll_row: usize,
    pub color_target: ColorTarget,
    pub hover: HoverState,
    pub dragging_rgb_channel: Option<RgbChannel>,
    pub undo_stack: Vec<Stroke>,
    pub redo_stack: Vec<Stroke>,
    pub active_stroke: Option<Stroke>,
    pub modal: Option<Modal>,
    pub message: String,
    pub should_quit: bool,
}

/// Every cell of `m` names one of the first `n` styles.
pub open spec fn cells_styled(m: Map<CellKey, PaintedCell>, n: nat) -> bool {
    forall|k: CellKey| #[trigger] m.contains_key(k) ==> m[k].style_index < n
}

/// The cell, if any, names one of the first `n` styles.
pub open spec fn opt_styled(o: Option<PaintedCell>, n: nat) -> bool {
    o matches Some(c) ==> c.style_index < n
}

/// Every value the changes mention names one of the first `n` styles.
pub open spec fn changes_styled(c: Map<CellKey, CellChange>, n: nat) -> bool {
    forall|k: CellKey| #[trigger] c.contains_key(k) ==> opt_styled(c[k].before, n) && opt_styled(c[k].after, n)
}

/// Every stroke's changes name existing styles.
pub open spec fn strokes_styled(s: Seq<Stroke>, n: nat) -> bool {
    forall|i: int| 0 <= i < s.len() ==> changes_styled((#[trigger] s[i]).changes@, n)
}

/// Every stamp's cells name existing styles.
pub open spec fn stamps_styled(s: Seq<Stamp>, n: nat) -> bool {
    forall|i: int| 0 <= i < s.len() ==> cells_styled((#[trigger] s[i]).cells@, n)
}

/// Every stamp cell lies inside the rectangle the stamp was taken from.
pub open spec fn stamp_within(cells: Map<CellKey, PaintedCell>, source: CellRect) -> bool {
    forall|k: CellKey| #[trigger] cells.contains_key(k) ==> k.1 < source.width && k.0 < source.height
}

/// Every frame's cells name existing styles.
pub open spec fn frames_styled(p: Project) -> bool {
    forall|f: int| 0 <= f < p.frames@.len() ==> cells_styled((#[trigger] p.frames@[f]).cells@, p.styles@.len())
}

impl AppState {
    /// The editor's invariant: there is a frame and a style, the current
    /// ones exist, and every cell anywhere (frames, stamps, history) names
    /// an existing style.
    pub open spec fn wf(&self) -> bool {
        let n = self.project.styles@.len();
        &&& self.project.frames@.len() >= 1
        &&& self.project.frames@.len() <= crate::model::MAX_FRAMES
        &&& n >= 1
        &&& self.current_frame_index < self.project.frames@.len()
        &&& self.current_style < n
        &&& frames_styled(self.project)
        &&& stamps_styled(self.stamps@, n)
        &&& strokes_styled(self.undo_stack@, n)
        &&& strokes_styled(self.redo_stack@, n)
        &&& (self.active_stroke matches Some(s) ==> changes_styled(s.changes@, n))
        &&& (self.moving_selection matches Some(m) ==> cells_styled(m.stamp.cells@, n))
        &&& (self.moving_selection matches Some(m) ==> stamp_within(m.stamp.cells@, m.source))
        &&& (self.selection_drag_anchor matches Some(a) ==> self.on_canvas(a))
        &&& (self.shape_drag matches Some(d) ==> self.on_canvas(d.start) && self.on_canvas(d.end))
        &&& self.areas.modal_area.y + self.areas.modal_area.height <= u16::MAX
        &&& self.areas.modal_area.x + self.areas.modal_area.width <= u16::MAX
    }

    /// `(x, y)` is a cell of the canvas.
    pub open spec fn on_canvas(&self, p: (u16, u16)) -> bool {
        p.0 < self.project.asset.width && p.1 < self.project.asset.height
    }

    /// The cells of the current frame.
    pub open spec fn cells(&self) -> Map<CellKey, PaintedCell> {
        self.project.frames@[self.current_frame_index as int].cells@
    }

    /// The welcome screen over an untitled 48x16 image, showing `message`.
    pub fn welcome(message: String) -> (s: Self)
        ensures
            s.wf(),
            s.screen == Screen::Welcome,
            s.message@ == message@,
            s.modal is None,
            !s.dirty,
            !s.should_quit,
            s.project.asset.width == DEFAULT_NEW_WIDTH,
            s.project.asset.height == DEFAULT_NEW_HEIGHT,
            s.undo_stack@.len() == 0,
            s.redo_stack@.len() == 0,
    {
        let project = Project::new_image("untitled", DEFAULT_NEW_WIDTH, DEFAULT_NEW_HEIGHT);
        let mut s = Self::editor(project, None, false, message);
        s.screen = Screen::Welcome;
        s
    }

    /// The editor open on `project`: the pencil with `#` in the first
    /// style on the first frame, nothing selected and no history.
    pub fn editor(project: Project, file_path: Option<String>, dirty: bool, message: String) -> (s: Self)
        requires
            project.frames@.len() >= 1,
            project.frames@.len() <= crate::model::MAX_FRAMES,
            project.styles@.len() >= 1,
            frames_styled(project),
        ensures
            s.wf(),
            s.screen == Screen::Editor,
            s.project == project,
            s.file_path == file_path,
            s.dirty == dirty,
            s.tool == Tool::Pencil,
            s.brush_char == '#',
            s.current_style == 0,
            s.current_frame_index == 0,
            !s.onion_skin,
            s.selection is None,
            s.selection_drag_anchor is None,
            s.moving_selection is None,
            s.shape_drag is None,
            s.stamps@.len() == 0,
            s.current_stamp_index is None,
            s.recent_extra_colors@.len() == 0,
            s.color_picker_scroll_row == 0,
            s.color_target == ColorTarget::Foreground,
            s.dragging_rgb_channel is None,
            s.undo_stack@.len() == 0,
            s.redo_stack@.len() == 0,
            s.active_stroke is None,
            s.modal is None,
            s.message@ == message@,
            !s.should_quit,
    {
        AppState {
            screen: Screen::Editor,
            project,
            file_path,
            dirty,
            tool: Tool::Pencil,
            brush_char: '#',
            current_style: 0,
            current_frame_index: 0,
            onion_skin: false,
            selection: None,
            selection_drag_anchor: None,
            moving_selection: None,
            shape_drag: None,
            stamps: Vec::new(),
            current_stamp_index: None,
            areas: HitAreas::empty(),
            recent_extra_colors: Vec::new(),
            color_picker_scroll_row: 0,
            color_target: ColorTarget::Foreground,
            hover: HoverState::none(),
            dragging_rgb_channel: None,
            undo_stack: Vec::new(),
            redo_stack: Vec::new(),
            active_stroke: None,
            modal: None,
            message,
            should_quit: false,
        }
    }

    /// The frame being edited.
    pub fn current_frame(&self) -> (f: &crate::model::Frame)
        requires
            self.wf(),
        ensures
            *f == self.project.frames@[self.current_frame_index as int],
    {
        &self.project.frames[self.current_frame_index]
    }

    /// The cell at `(y, x)` of the frame being edited.
    pub fn cell_at(&self, key: CellKey) -> (r: Option<PaintedCell>)
        requires
            self.wf(),
        ensures
            r == opt_cell(self.cells(), key),
    {
        match self.project.frames[self.current_frame_index].cells.get(&key) {
            Some(c) => Some(*c),
            None => None,
        }
    }

    /// The frame before the current one, if any.
    pub fn previous_frame(&self) -> (r: Option<&crate::model::Frame>)
        requires
            self.wf(),
        ensures
            self.current_frame_index == 0 ==> r is None,
            self.current_frame_index > 0 ==> (r matches Some(f) && *f == self.project.frames@[self.current_frame_index - 1]),
    {
        if self.current_frame_index == 0 {
            None
        } else {
            Some(&self.project.frames[self.current_frame_index - 1])
        }
    }

    /// Marks a document with more than one frame as an animation.
    pub fn normalize_frame_kind(&mut self)
        ensures
            final(self).project.asset.kind == if old(self).project.frames@.len() > 1 {
                crate::model::AssetKind::Animation
            } else {
                old(self).project.asset.kind
            },
            final(self).project.asset.name == old(self).project.asset.name,
            final(self).project.asset.width == old(self).project.asset.width,
            final(self).project.asset.height == old(self).project.asset.height,
            final(self).project.asset.default_frame_duration_ms == old(self).project.asset.default_frame_duration_ms,
            final(self).project.asset.loop_animation == old(self).project.asset.loop_animation,
            final(self).project.layout == old(self).project.layout,
            final(self).project.styles == old(self).project.styles,
            final(self).project.frames == old(self).project.frames,
            final(self).eq_except_project(*old(self)),
    {
        if self.project.frames.len() > 1 {
            self.project.asset.kind = crate::model::AssetKind::Animation;
        }
    }

    /// All fields but the document are as in `o`.
    pub open spec fn eq_except_project(&self, o: Self) -> bool {
        &&& self.screen == o.screen
        &&& self.file_path == o.file_path
        &&& self.dirty == o.dirty
        &&& self.eq_tools(o)
        &&& self.current_frame_index == o.current_frame_index
        &&& self.onion_skin == o.onion_skin
        &&& self.eq_selection(o)
        &&& self.eq_view(o)
        &&& self.undo_stack == o.undo_stack
        &&& self.redo_stack == o.redo_stack
        &&& self.active_stroke == o.active_stroke
        &&& self.modal == o.modal
        &&& self.message == o.message
        &&& self.should_quit == o.should_quit
    }

    /// Everything but the color picker's scroll row is as in `o`.
    pub open spec fn eq_except_picker_row(&self, o: Self) -> bool {
        &&& self.project == o.project
        &&& self.screen == o.screen
        &&& self.file_path == o.file_path
        &&& self.dirty == o.dirty
        &&& self.eq_tools(o)
        &&& self.current_frame_index == o.current_frame_index
        &&& self.onion_skin == o.onion_skin
        &&& self.eq_selection(o)
        &&& self.areas == o.areas
        &&& self.recent_extra_colors == o.recent_extra_colors
        &&& self.color_target == o.color_target
        &&& self.hover == o.hover
        &&& self.dragging_rgb_channel == o.dragging_rgb_channel
        &&& self.undo_stack == o.undo_stack
        &&& self.redo_stack == o.redo_stack
        &&& self.active_stroke == o.active_stroke
        &&& self.modal == o.modal
        &&& self.message == o.message
        &&& self.should_quit == o.should_quit
    }

    /// Everything but the message is as in `o`.
    pub open spec fn eq_except_message(&self, o: Self) -> bool {
        &&& self.project == o.project
        &&& self.screen == o.screen
        &&& self.file_path == o.file_path
        &&& self.dirty == o.dirty
        &&& self.eq_tools(o)
        &&& self.current_frame_index == o.current_frame_index
        &&& self.onion_skin == o.onion_skin
        &&& self.eq_selection(o)
        &&& self.eq_view(o)
        &&& self.undo_stack == o.undo_stack
        &&& self.redo_stack == o.redo_stack
        &&& self.active_stroke == o.active_stroke
        &&& self.modal == o.modal
        &&& self.should_quit == o.should_quit
    }

    /// The tool, brush, style and stamps are as in `o`.
    pub open spec fn eq_tools(&self, o: Self) -> bool {
        &&& self.tool == o.tool
        &&& self.brush_char == o.brush_char
        &&& self.current_style == o.current_style
        &&& self.stamps == o.stamps
        &&& self.current_stamp_index == o.current_stamp_index
    }

    /// The selection and drags in progress are as in `o`.
    pub open spec fn eq_selection(&self, o: Self) -> bool {
        &&& self.selection == o.selection
        &&& self.selection_drag_anchor == o.selection_drag_anchor
        &&& self.moving_selection == o.moving_selection
        &&& self.shape_drag == o.shape_drag
    }

    /// What the screen shows apart from the document is as in `o`.
    pub open spec fn eq_view(&self, o: Self) -> bool {
        &&& self.areas == o.areas
        &&& self.recent_extra_colors == o.recent_extra_colors
        &&& self.color_picker_scroll_row == o.color_picker_scroll_row
        &&& self.color_target == o.color_target
        &&& self.hover == o.hover
        &&& self.dragging_rgb_channel == o.dragging_rgb_channel
    }

    /// Only the cells of the frame at `i` differ from `o` in the document.
    pub open spec fn project_edits_frame(&self, o: Self, i: int) -> bool {
        &&& self.project.asset == o.project.asset
        &&& self.project.layout == o.project.layout
        &&& self.project.styles == o.project.styles
        &&& self.project.frames@.len() == o.project.frames@.len()
        &&& forall|j: int| 0 <= j < self.project.frames@.len() && j != i ==> self.project.frames@[j] == o.project.frames@[j]
        &&& self.project.frames@[i].id == o.project.frames@[i].id
        &&& self.project.frames@[i].duration_ms == o.project.frames@[i].duration_ms
    }
}

} // verus!
