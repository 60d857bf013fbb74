use vstd::prelude::*;

use crate::editor::actions::{picker_max_scroll, rgb_stepped, slider_moved, spec_find_hit, Request};
use crate::editor::commit::committed;
use crate::editor::controls::{ModalAction, RgbControl, Screen, Tool, TopAction, WelcomeAction};
use crate::editor::actions::palette_click_done;
use crate::editor::frames::{frame_inserted, position_text, stroke_finished};
use crate::editor::geometry::spec_hit_palette_item;
use crate::editor::palette::{palette_chars, palette_colors, CHAR_SLOT_WIDTH, COLOR_SLOT_WIDTH};
use crate::editor::selection::{shape_drawn, stamp_pasted};
use crate::editor::tools::{
    selection_begun, selection_dragged, selection_dropped, shape_begun, shape_dragged, spec_canvas_cell, text_input_opened,
    tool_applied,
};
use crate::editor::geometry::{rect_contains, spec_rect_contains};
use crate::editor::history::Stroke;
use crate::editor::input::{chosen_tool, save_and_quit_done, with_modal, MouseEvent, MouseKind};
use crate::editor::state::{AppState, HoverState, Modal};
use crate::text::owned;

verus! {

/// What a welcome-screen button does.
pub open spec fn welcome_action_done(o: AppState, action: WelcomeAction, f: AppState) -> bool {
    match action {
        WelcomeAction::NewImage => (f.modal matches Some(Modal::NewImage { input, target_path }) && input@ == "48x16"@
            && target_path is None) && f.project == o.project,
        WelcomeAction::NewAnimation => (f.modal matches Some(Modal::NewAnimation { input, target_path }) && input@
            == "48x16"@ && target_path is None) && f.project == o.project,
        WelcomeAction::OpenFile => (f.modal matches Some(Modal::OpenFile { input }) && input@.len() == 0) && f.project
            == o.project,
        WelcomeAction::Quit => f.should_quit && f.project == o.project,
    }
}

/// What a dialog button does: the state `f` it leaves and the outside work
/// `r` it asks for.
pub open spec fn modal_action_done(o: AppState, action: ModalAction, f: AppState, r: Request) -> bool {
    match action {
        ModalAction::Confirm => match o.modal {
            Some(m) => committed(with_modal(o, None), m, f, r),
            None => r is Nothing && f == o,
        },
        ModalAction::Cancel => r is Nothing && f.modal is None && f.message@ == "Canceled"@ && f.project == o.project,
        ModalAction::RgbInput => r is Nothing && (f.modal matches Some(Modal::RgbInput { color }) && color
            == o.spec_rgb_base()) && f.project == o.project,
        ModalAction::ExportText => r is Nothing && (f.modal matches Some(Modal::ExportText { .. })) && f.project
            == o.project,
        ModalAction::ExportAnsi => r is Nothing && (f.modal matches Some(Modal::ExportAnsi { .. })) && f.project
            == o.project,
        ModalAction::SaveAndQuit => save_and_quit_done(o, f, r),
        ModalAction::Discard => r is Nothing && f.should_quit && f.project == o.project,
    }
}

/// What a top-bar button does: the state `f` it leaves and the outside work
/// `r` it asks for.
pub open spec fn top_action_done(o: AppState, action: TopAction, f: AppState, r: Request) -> bool {
    match action {
        TopAction::PreviousFrame => {
            &&& r is Nothing
            &&& f.project == o.project
            &&& f.current_frame_index == if o.current_frame_index > 0 {
                o.current_frame_index - 1
            } else {
                0
            }
            &&& f.message@ == if o.current_frame_index > 0 {
                position_text("Frame"@, (o.current_frame_index - 1) as nat, o.project.frames@.len())
            } else {
                "Already on first frame"@
            }
        },
        TopAction::NextFrame => {
            &&& r is Nothing
            &&& o.current_frame_index + 1 < o.project.frames@.len() ==> {
                &&& f.project == o.project
                &&& f.current_frame_index == o.current_frame_index + 1
                &&& f.selection is None
                &&& f.message@ == position_text("Frame"@, (o.current_frame_index + 1) as nat, o.project.frames@.len())
            }
            &&& o.current_frame_index + 1 >= o.project.frames@.len() ==> exists|mid: AppState| #[trigger] stroke_finished(
                o,
                mid,
            ) && frame_inserted(mid, f, o.cells(), "Added frame"@)
        },
        TopAction::DuplicateFrame => r is Nothing && exists|mid: AppState| #[trigger] stroke_finished(o, mid)
            && frame_inserted(mid, f, o.cells(), "Duplicated frame"@),
        TopAction::BlankFrame => r is Nothing && exists|mid: AppState| #[trigger] stroke_finished(o, mid)
            && frame_inserted(mid, f, Map::empty(), "Added blank frame"@),
        TopAction::ToggleOnionSkin => r is Nothing && f.onion_skin == !o.onion_skin && f.project == o.project,
        TopAction::Save => match o.file_path {
            Some(p) => (r matches Request::Save { path, quit_after } && path@ == p@ && !quit_after) && f == o,
            None => r is Nothing && (f.modal matches Some(Modal::SaveAs { .. })) && f.project == o.project,
        },
        TopAction::SaveAs => r is Nothing && (f.modal matches Some(Modal::SaveAs { .. })) && f.project == o.project,
        TopAction::ExportText => r is Nothing && (f.modal matches Some(Modal::ExportMenu)) && f.message@
            == "Choose export format"@ && f.project == o.project,
        TopAction::Quit => {
            &&& r is Nothing
            &&& f.project == o.project
            &&& o.dirty ==> (f.modal matches Some(Modal::QuitConfirm))
            &&& !o.dirty ==> f.should_quit
        },
    }
}

/// `s` with the hover record `h`.
pub open spec fn with_hover(s: AppState, h: HoverState) -> AppState {
    AppState { hover: h, ..s }
}

/// `o` with what the mouse is over in the color picker recorded.
pub open spec fn picker_hovered(o: AppState, column: u16, row: u16) -> AppState {
    with_hover(
        o,
        HoverState {
            modal_color: spec_find_hit(o.areas.modal_color_areas@, column, row),
            modal_action: spec_find_hit(o.areas.modal_action_areas@, column, row),
            ..o.hover
        },
    )
}

/// `o` with what the mouse is over in the RGB dialog recorded.
pub open spec fn rgb_hovered(o: AppState, column: u16, row: u16) -> AppState {
    with_hover(
        o,
        HoverState {
            rgb_control: spec_find_hit(o.areas.modal_rgb_areas@, column, row),
            modal_action: spec_find_hit(o.areas.modal_action_areas@, column, row),
            ..o.hover
        },
    )
}

/// `o` with the tool-menu entry under the mouse recorded.
pub open spec fn tool_menu_hovered(o: AppState, column: u16, row: u16) -> AppState {
    with_hover(o, HoverState { modal_tool: spec_find_hit(o.areas.modal_tool_areas@, column, row), ..o.hover })
}

/// `o` with the dialog button under the mouse recorded.
pub open spec fn dialog_hovered(o: AppState, column: u16, row: u16) -> AppState {
    with_hover(o, HoverState { modal_action: spec_find_hit(o.areas.modal_action_areas@, column, row), ..o.hover })
}

/// What the mouse does in the RGB dialog.
pub open spec fn rgb_mouse_handled(o: AppState, mouse: MouseEvent, f: AppState, r: Request) -> bool {
    let h = rgb_hovered(o, mouse.column, mouse.row);
    match mouse.kind {
        MouseKind::LeftDown => match h.hover.rgb_control {
            Some(RgbControl::Slider(c)) => r is Nothing && slider_moved(
                AppState { dragging_rgb_channel: Some(c), ..h },
                c,
                mouse.column,
                f,
            ),
            Some(RgbControl::Decrement(c)) => r is Nothing && rgb_stepped(h, c, -1, f),
            Some(RgbControl::Increment(c)) => r is Nothing && rgb_stepped(h, c, 1, f),
            None => match h.hover.modal_action {
                Some(a) => modal_action_done(h, a, f, r),
                None => r is Nothing && if spec_rect_contains(o.areas.modal_area, mouse.column, mouse.row) {
                    f == h
                } else {
                    f.modal is None && f.message@ == "RGB canceled"@ && f.project == o.project
                },
            },
        },
        MouseKind::LeftDrag => r is Nothing && match o.dragging_rgb_channel {
            Some(c) => slider_moved(h, c, mouse.column, f),
            None => f == h,
        },
        MouseKind::LeftUp => r is Nothing && f == AppState { dragging_rgb_channel: None, ..h },
        _ => r is Nothing && f == h,
    }
}

/// What the mouse does while a dialog is open.
pub open spec fn modal_mouse_handled(o: AppState, mouse: MouseEvent, f: AppState, r: Request) -> bool {
    let (column, row) = (mouse.column, mouse.row);
    match o.modal {
        Some(Modal::ColorPicker) => {
            let h = picker_hovered(o, column, row);
            match mouse.kind {
                MouseKind::ScrollDown => r is Nothing && f.eq_except_picker_row(h) && f.color_picker_scroll_row == if h.color_picker_scroll_row
                    + 1 < picker_max_scroll(o.areas.modal_area) {
                    h.color_picker_scroll_row + 1
                } else {
                    picker_max_scroll(o.areas.modal_area)
                },
                MouseKind::ScrollUp => r is Nothing && f.eq_except_picker_row(h) && f.color_picker_scroll_row == if h.color_picker_scroll_row
                    >= 1 {
                    h.color_picker_scroll_row - 1
                } else {
                    0
                },
                MouseKind::LeftDown => match h.hover.modal_color {
                    Some(index) => (r matches Request::PickColor { index: i } && i == index) && f == h,
                    None => match h.hover.modal_action {
                        Some(a) => modal_action_done(h, a, f, r),
                        None => r is Nothing && if spec_rect_contains(o.areas.modal_area, column, row) {
                            f == h
                        } else {
                            f.modal is None && f.message@ == "Color picker closed"@ && f.project == o.project
                        },
                    },
                },
                _ => r is Nothing && f == h,
            }
        },
        Some(Modal::RgbInput { .. }) => rgb_mouse_handled(o, mouse, f, r),
        Some(Modal::ToolMenu) => {
            let h = tool_menu_hovered(o, column, row);
            r is Nothing && if mouse.kind == MouseKind::LeftDown {
                match h.hover.modal_tool {
                    Some(t) => f.modal is None && f.tool == chosen_tool(o, t) && f.project == o.project,
                    None => if spec_rect_contains(o.areas.modal_area, column, row) {
                        f == h
                    } else {
                        f.modal is None && f.message@ == "Tool menu closed"@ && f.project == o.project
                    },
                }
            } else {
                f == h
            }
        },
        Some(_) => {
            let h = dialog_hovered(o, column, row);
            if mouse.kind == MouseKind::LeftDown {
                match h.hover.modal_action {
                    Some(a) => modal_action_done(h, a, f, r),
                    None => r is Nothing && if spec_rect_contains(o.areas.modal_area, column, row) {
                        f == h
                    } else {
                        f.modal is None && f.message@ == "Canceled"@ && f.project == o.project
                    },
                }
            } else {
                r is Nothing && f == h
            }
        },
        None => r is Nothing && f == o,
    }
}

/// What the mouse does on the welcome screen with no dialog open.
pub open spec fn welcome_mouse_handled(o: AppState, mouse: MouseEvent, f: AppState) -> bool {
    let hit = spec_find_hit(o.areas.welcome_action_areas@, mouse.column, mouse.row);
    let h = with_hover(o, HoverState { welcome_action: hit, ..o.hover });
    match hit {
        Some(a) if mouse.kind == MouseKind::LeftDown => welcome_action_done(h, a, f),
        _ => f == h,
    }
}

/// What a left click does in the editor once what the mouse is over has
/// been recorded in `h`.
pub open spec fn editor_click_done(h: AppState, column: u16, row: u16, f: AppState, r: Request) -> bool {
    match spec_find_hit(h.areas.top_action_areas@, column, row) {
        Some(a) => top_action_done(h, a, f, r),
        None => if spec_rect_contains(h.areas.tool_button_area, column, row) {
            &&& r is Nothing
            &&& f.modal matches Some(Modal::ToolMenu)
            &&& f.hover.modal_tool is None
            &&& f.message@ == "Choose a tool"@
            &&& f.project == h.project
        } else if spec_rect_contains(h.areas.brush_button_area, column, row) {
            &&& r is Nothing
            &&& f.modal matches Some(Modal::BrushChar { input }) && input@ == seq![h.brush_char]
            &&& f.project == h.project
        } else if spec_rect_contains(h.areas.more_colors_button_area, column, row) {
            r is Nothing && (f.modal matches Some(Modal::ColorPicker)) && f.project == h.project
        } else if spec_rect_contains(h.areas.rgb_button_area, column, row) {
            r is Nothing && (f.modal matches Some(Modal::RgbInput { color }) && color == h.spec_rgb_base()) && f.project
                == h.project
        } else if sidebar_hit(h, column, row) {
            r is Nothing && palette_click_done(h, column, row, f, true)
        } else {
            r is Nothing && canvas_click_done(h, column, row, f)
        },
    }
}

/// What the mouse does in the editor with no dialog open.
pub open spec fn editor_mouse_handled(o: AppState, mouse: MouseEvent, f: AppState, r: Request) -> bool {
    exists|h: AppState| {
        &&& #[trigger] with_hover(o, h.hover) == h
        &&& match mouse.kind {
            MouseKind::LeftDown => editor_click_done(h, mouse.column, mouse.row, f, r),
            MouseKind::LeftDrag => r is Nothing && drag_done(h, mouse.column, mouse.row, f),
            MouseKind::LeftUp => r is Nothing && match o.tool {
                Tool::Selection => selection_dropped(h, f),
                Tool::Line | Tool::Rectangle => match h.shape_drag {
                    None => f == h,
                    Some(shape) => shape_drawn((AppState { shape_drag: None, ..h }), f, shape),
                },
                _ => stroke_finished(h, f),
            },
            _ => r is Nothing && f == h,
        }
    }
}

/// What the mouse does, wherever the editor is: an open dialog takes it
/// first, then the welcome screen or the editor.
pub open spec fn mouse_handled(o: AppState, mouse: MouseEvent, f: AppState, r: Request) -> bool {
    if o.modal is Some {
        modal_mouse_handled(o, mouse, f, r)
    } else {
        match o.screen {
            Screen::Welcome => r is Nothing && welcome_mouse_handled(o, mouse, f),
            Screen::Editor => editor_mouse_handled(o, mouse, f, r),
        }
    }
}

/// Some sidebar control lies under `(column, row)`.
pub open spec fn sidebar_hit(o: AppState, column: u16, row: u16) -> bool {
    ||| spec_find_hit(o.areas.color_control_areas@, column, row) is Some
    ||| spec_find_hit(o.areas.selection_action_areas@, column, row) is Some
    ||| spec_find_hit(o.areas.attr_button_areas@, column, row) is Some
    ||| spec_hit_palette_item(o.areas.color_palette_area, COLOR_SLOT_WIDTH, column, row, palette_colors().len() as int) is Some
    ||| spec_hit_palette_item(
        o.areas.recent_color_palette_area,
        COLOR_SLOT_WIDTH,
        column,
        row,
        o.recent_extra_colors@.len() as int,
    ) is Some
    ||| spec_hit_palette_item(o.areas.character_palette_area, CHAR_SLOT_WIDTH, column, row, palette_chars().len() as int) is Some
}

/// `m` is `o` with a new, empty stroke on the current frame.
pub open spec fn stroke_started(o: AppState, m: AppState) -> bool {
    &&& m.active_stroke matches Some(st) && st.frame_index == o.current_frame_index && st.changes@.dom().len() == 0
        && st.changes@ == Map::<crate::model::CellKey, crate::editor::history::CellChange>::empty()
    &&& m == (AppState { active_stroke: m.active_stroke, ..o })
}

/// What a left click on the canvas does with the current tool.
pub open spec fn canvas_click_done(o: AppState, column: u16, row: u16, f: AppState) -> bool {
    match o.tool {
        Tool::Selection => selection_begun(o, f, column, row),
        Tool::Stamp => match spec_canvas_cell(o, column, row) {
            None => f == o,
            Some(p) => stamp_pasted(o, f, p.0, p.1),
        },
        Tool::Text => text_input_opened(o, f, column, row),
        Tool::Line | Tool::Rectangle => shape_begun(o, f, column, row),
        Tool::Pencil | Tool::Eraser => exists|m: AppState| #[trigger] stroke_started(o, m) && tool_applied(m, f, column, row),
        _ => tool_applied(o, f, column, row),
    }
}

/// What dragging on the canvas does with the current tool: the selection
/// or shape follows the mouse, and the pencil and eraser keep painting
/// into one stroke.
pub open spec fn drag_done(o: AppState, column: u16, row: u16, f: AppState) -> bool {
    match o.tool {
        Tool::Selection => selection_dragged(o, f, column, row),
        Tool::Line | Tool::Rectangle => shape_dragged(o, f, column, row),
        Tool::Pencil | Tool::Eraser => if o.active_stroke is Some {
            tool_applied(o, f, column, row)
        } else {
            exists|m: AppState| #[trigger] stroke_started(o, m) && tool_applied(m, f, column, row)
        },
        _ => f == o,
    }
}

impl AppState {
    /// Runs a welcome-screen button.
    pub fn run_welcome_action(&mut self, action: WelcomeAction)
        requires
            old(self).wf(),
        ensures
            final(self).wf(),
            welcome_action_done(*old(self), action, *final(self)),
    {
        match action {
            WelcomeAction::NewImage => {
                self.modal = Some(Modal::NewImage { input: owned("48x16"), target_path: None });
            },
            WelcomeAction::NewAnimation => {
                self.modal = Some(Modal::NewAnimation { input: owned("48x16"), target_path: None });
            },
            WelcomeAction::OpenFile => {
                self.modal = Some(Modal::OpenFile { input: String::new() });
            },
            WelcomeAction::Quit => {
                self.should_quit = true;
            },
        }
    }

    /// Runs a dialog button.
    pub fn run_modal_action(&mut self, action: ModalAction) -> (r: Request)
        requires
            old(self).wf(),
        ensures
            final(self).wf(),
            modal_action_done(*old(self), action, *final(self), r),
    {
        match action {
            ModalAction::Confirm => {
                let ghost before = *self;
                let modal = self.modal.take();
                match modal {
                    Some(m) => {
                        proof {
                            assert(*self == with_modal(before, None));
                        }
                        self.commit_modal(m)
                    },
                    None => Request::Nothing,
                }
            },
            ModalAction::Cancel => {
                self.close_modal(owned("Canceled"));
                Request::Nothing
            },
            ModalAction::RgbInput => {
                self.open_rgb_input();
                Request::Nothing
            },
            ModalAction::ExportText => {
                self.open_export_text();
                Request::Nothing
            },
            ModalAction::ExportAnsi => {
                self.open_export_ansi();
                Request::Nothing
            },
            ModalAction::SaveAndQuit => self.save_and_quit(),
            ModalAction::Discard => {
                self.should_quit = true;
                Request::Nothing
            },
        }
    }

    /// Runs a top-bar button.
    pub fn run_top_action(&mut self, action: TopAction) -> (r: Request)
        requires
            old(self).wf(),
        ensures
            final(self).wf(),
            top_action_done(*old(self), action, *final(self), r),
    {
        match action {
            TopAction::PreviousFrame => {
                self.previous_frame_or_message();
                Request::Nothing
            },
            TopAction::NextFrame => {
                self.next_frame_or_create();
                Request::Nothing
            },
            TopAction::DuplicateFrame => {
                self.duplicate_current_frame();
                Request::Nothing
            },
            TopAction::BlankFrame => {
                self.insert_blank_frame();
                Request::Nothing
            },
            TopAction::ToggleOnionSkin => {
                self.toggle_onion_skin();
                Request::Nothing
            },
            TopAction::Save => self.save(false),
            TopAction::SaveAs => {
                self.open_save_as();
                Request::Nothing
            },
            TopAction::ExportText => {
                self.open_export_menu();
                Request::Nothing
            },
            TopAction::Quit => {
                self.request_quit();
                Request::Nothing
            },
        }
    }

    /// Runs the top-bar button under the mouse, if any; says whether there
    /// was one.
    pub fn apply_top_action_click(&mut self, column: u16, row: u16) -> (r: (bool, Request))
        requires
            old(self).wf(),
        ensures
            final(self).wf(),
            match spec_find_hit(old(self).areas.top_action_areas@, column, row) {
                Some(a) => r.0 && top_action_done(*old(self), a, *final(self), r.1),
                None => !r.0 && r.1 is Nothing && *final(self) == *old(self),
            },
    {
        match self.top_action_at(column, row) {
            Some(action) => (true, self.run_top_action(action)),
            None => (false, Request::Nothing),
        }
    }

    /// Handles the mouse on the welcome screen.
    pub fn handle_welcome_mouse(&mut self, mouse: MouseEvent)
        requires
            old(self).wf(),
        ensures
            final(self).wf(),
            welcome_mouse_handled(*old(self), mouse, *final(self)),
    {
        self.update_welcome_hover(mouse.column, mouse.row);
        if mouse.kind == MouseKind::LeftDown {
            match self.hover.welcome_action {
                Some(action) => self.run_welcome_action(action),
                None => {},
            }
        }
    }

    /// Handles the mouse in the RGB dialog: buttons step a channel, sliders
    /// set one and start a drag, dialog buttons run, a click outside
    /// cancels.
    pub fn handle_rgb_mouse(&mut self, mouse: MouseEvent) -> (r: Request)
        requires
            old(self).wf(),
        ensures
            final(self).wf(),
            rgb_mouse_handled(*old(self), mouse, *final(self), r),
    {
        self.hover.rgb_control = self.modal_rgb_control_at(mouse.column, mouse.row);
        self.hover.modal_action = self.modal_action_at(mouse.column, mouse.row);
        match mouse.kind {
            MouseKind::LeftDown => {
                match self.hover.rgb_control {
                    Some(control) => {
                        self.apply_rgb_control(control, mouse.column);
                        return Request::Nothing;
                    },
                    None => {},
                }
                match self.hover.modal_action {
                    Some(action) => {
                        return self.run_modal_action(action);
                    },
                    None => {},
                }
                if !rect_contains(self.areas.modal_area, mouse.column, mouse.row) {
                    self.close_modal(owned("RGB canceled"));
                }
                Request::Nothing
            },
            MouseKind::LeftDrag => {
                match self.dragging_rgb_channel {
                    Some(channel) => self.set_rgb_channel_from_slider(channel, mouse.column),
                    None => {},
                }
                Request::Nothing
            },
            MouseKind::LeftUp => {
                self.dragging_rgb_channel = None;
                Request::Nothing
            },
            _ => Request::Nothing,
        }
    }

    /// Handles the mouse in the color picker: the wheel scrolls, a click
    /// picks a color (which the caller computes), runs a button, or outside
    /// the dialog closes it.
    fn handle_picker_mouse(&mut self, mouse: MouseEvent) -> (r: Request)
        requires
            old(self).wf(),
            old(self).modal matches Some(Modal::ColorPicker),
        ensures
            final(self).wf(),
            modal_mouse_handled(*old(self), mouse, *final(self), r),
    {
        let (column, row) = (mouse.column, mouse.row);
        self.hover.modal_color = self.modal_color_at(column, row);
        self.hover.modal_action = self.modal_action_at(column, row);
        match mouse.kind {
            MouseKind::ScrollDown => self.scroll_color_picker(1),
            MouseKind::ScrollUp => self.scroll_color_picker(-1),
            MouseKind::LeftDown => {
                match self.hover.modal_color {
                    Some(index) => {
                        return Request::PickColor { index };
                    },
                    None => {},
                }
                match self.hover.modal_action {
                    Some(action) => {
                        return self.run_modal_action(action);
                    },
                    None => {},
                }
                if !rect_contains(self.areas.modal_area, column, row) {
                    self.close_modal(owned("Color picker closed"));
                }
            },
            _ => {},
        }
        Request::Nothing
    }

    /// Handles the mouse in the tool menu.
    fn handle_tool_menu_mouse(&mut self, mouse: MouseEvent) -> (r: Request)
        requires
            old(self).wf(),
            old(self).modal matches Some(Modal::ToolMenu),
        ensures
            final(self).wf(),
            modal_mouse_handled(*old(self), mouse, *final(self), r),
    {
        let (column, row) = (mouse.column, mouse.row);
        self.hover.modal_tool = self.modal_tool_at(column, row);
        if mouse.kind == MouseKind::LeftDown {
            match self.hover.modal_tool {
                Some(tool) => self.select_tool_from_menu(tool),
                None => {
                    if !rect_contains(self.areas.modal_area, column, row) {
                        self.close_modal(owned("Tool menu closed"));
                    }
                },
            }
        }
        Request::Nothing
    }

    /// Handles the mouse in a dialog with buttons.
    fn handle_dialog_mouse(&mut self, mouse: MouseEvent) -> (r: Request)
        requires
            old(self).wf(),
            old(self).modal is Some,
            !(old(self).modal matches Some(Modal::ColorPicker)),
            !(old(self).modal matches Some(Modal::ToolMenu)),
            !(old(self).modal matches Some(Modal::RgbInput { .. })),
        ensures
            final(self).wf(),
            modal_mouse_handled(*old(self), mouse, *final(self), r),
    {
        let (column, row) = (mouse.column, mouse.row);
        self.hover.modal_action = self.modal_action_at(column, row);
        if mouse.kind == MouseKind::LeftDown {
            match self.hover.modal_action {
                Some(action) => {
                    return self.run_modal_action(action);
                },
                None => {
                    if !rect_contains(self.areas.modal_area, column, row) {
                        self.close_modal(owned("Canceled"));
                    }
                },
            }
        }
        Request::Nothing
    }

    /// Handles the mouse while a dialog is open.
    pub fn handle_modal_mouse(&mut self, mouse: MouseEvent) -> (r: Request)
        requires
            old(self).wf(),
        ensures
            final(self).wf(),
            modal_mouse_handled(*old(self), mouse, *final(self), r),
    {
        match &self.modal {
            None => Request::Nothing,
            Some(Modal::ColorPicker) => self.handle_picker_mouse(mouse),
            Some(Modal::RgbInput { .. }) => self.handle_rgb_mouse(mouse),
            Some(Modal::ToolMenu) => self.handle_tool_menu_mouse(mouse),
            Some(_) => self.handle_dialog_mouse(mouse),
        }
    }
    /// Handles the mouse: an open dialog takes it first, then the welcome
    /// screen or the editor.
    pub fn handle_mouse(&mut self, mouse: MouseEvent) -> (r: Request)
        requires
            old(self).wf(),
        ensures
            final(self).wf(),
            mouse_handled(*old(self), mouse, *final(self), r),
    {
        if self.modal.is_some() {
            return self.handle_modal_mouse(mouse);
        }
        match self.screen {
            Screen::Welcome => {
                self.handle_welcome_mouse(mouse);
                Request::Nothing
            },
            Screen::Editor => self.handle_editor_mouse(mouse),
        }
    }

    /// Handles the mouse in the editor with no dialog open.
    fn handle_editor_mouse(&mut self, mouse: MouseEvent) -> (r: Request)
        requires
            old(self).wf(),
        ensures
            final(self).wf(),
            editor_mouse_handled(*old(self), mouse, *final(self), r),
    {
        let ghost before = *self;
        self.update_hover(mouse.column, mouse.row);
        let ghost h = *self;
        proof {
            assert(with_hover(before, h.hover) == h);
        }
        match mouse.kind {
            MouseKind::LeftDown => self.editor_click(mouse.column, mouse.row),
            MouseKind::LeftDrag => {
                self.editor_drag(mouse.column, mouse.row);
                Request::Nothing
            },
            MouseKind::LeftUp => {
                match self.tool {
                    Tool::Selection => self.finish_selection_mouse(),
                    Tool::Line | Tool::Rectangle => self.finish_shape_mouse(),
                    _ => self.finish_stroke(),
                }
                Request::Nothing
            },
            _ => Request::Nothing,
        }
    }

    /// Handles a left click in the editor: top-bar buttons, the tool, brush,
    /// more-colors and RGB buttons, the sidebar, then the canvas with the
    /// current tool.
    fn editor_click(&mut self, column: u16, row: u16) -> (r: Request)
        requires
            old(self).wf(),
        ensures
            final(self).wf(),
            editor_click_done(*old(self), column, row, *final(self), r),
    {
        let (hit, request) = self.apply_top_action_click(column, row);
        if hit {
            return request;
        }
        if rect_contains(self.areas.tool_button_area, column, row) {
            self.modal = Some(Modal::ToolMenu);
            self.hover.modal_tool = None;
            self.message = owned("Choose a tool");
            return Request::Nothing;
        }
        if rect_contains(self.areas.brush_button_area, column, row) {
            let mut input = String::new();
            crate::text::push_char(&mut input, self.brush_char);
            self.modal = Some(Modal::BrushChar { input });
            return Request::Nothing;
        }
        if rect_contains(self.areas.more_colors_button_area, column, row) {
            self.open_color_picker();
            return Request::Nothing;
        }
        if rect_contains(self.areas.rgb_button_area, column, row) {
            self.open_rgb_input();
            return Request::Nothing;
        }
        if self.apply_palette_click(column, row) {
            return Request::Nothing;
        }
        match self.tool {
            Tool::Selection => self.begin_selection_mouse(column, row),
            Tool::Stamp => self.paste_stamp_at_screen(column, row),
            Tool::Text => self.open_text_input_at_screen(column, row),
            Tool::Line | Tool::Rectangle => self.begin_shape_mouse(column, row),
            Tool::Pencil | Tool::Eraser => {
                let ghost before = *self;
                self.active_stroke = Some(Stroke::new(self.current_frame_index));
                proof {
                    assert(self.active_stroke->0.changes@.dom() =~= Set::empty());
                    assert(stroke_started(before, *self));
                }
                let ghost mid = *self;
                self.apply_tool_at_screen(column, row);
                proof {
                    assert(stroke_started(before, mid) && tool_applied(mid, *self, column, row));
                }
            },
            _ => self.apply_tool_at_screen(column, row),
        }
        Request::Nothing
    }

    /// Handles a drag in the editor: the selection or shape follows the
    /// mouse, and the pencil and eraser keep painting into one stroke.
    fn editor_drag(&mut self, column: u16, row: u16)
        requires
            old(self).wf(),
        ensures
            final(self).wf(),
            drag_done(*old(self), column, row, *final(self)),
    {
        let ghost before = *self;
        match self.tool {
            Tool::Selection => self.update_selection_mouse(column, row),
            Tool::Line | Tool::Rectangle => self.update_shape_mouse(column, row),
            Tool::Pencil | Tool::Eraser => {
                if self.active_stroke.is_none() {
                    self.active_stroke = Some(Stroke::new(self.current_frame_index));
                    proof {
                        assert(self.active_stroke->0.changes@.dom() =~= Set::empty());
                        assert(stroke_started(before, *self));
                    }
                }
                let ghost mid = *self;
                self.apply_tool_at_screen(column, row);
                proof {
                    if before.active_stroke is None {
                        assert(stroke_started(before, mid) && tool_applied(mid, *self, column, row));
                    }
                }
            },
            _ => {},
        }
    }
}

} // verus!
