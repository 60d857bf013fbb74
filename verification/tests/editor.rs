use std::collections::BTreeSet;
use terminal_animator::editor::actions::{asset_name_from_path, default_text_export_path, temporary_path_for, Request};
use terminal_animator::editor::input::{KeyCode, KeyEvent};
use terminal_animator::editor::controls::{
    ColorControl, ColorTarget, ModalAction, PaletteHover, RgbChannel, RgbControl, Screen, Tool, TopAction, WelcomeAction,
};
use terminal_animator::editor::geometry::{hit_palette_item, line_points, rgb_slider_value_at, CellRect, ScreenRect};
use terminal_animator::editor::palette::{character_palette, color_palette, is_visible_palette_color, COLOR_SLOT_WIDTH};
use terminal_animator::editor::state::{AppState, ButtonHit, Modal, MovingSelection, ShapeDrag};
use terminal_animator::model::{AssetKind, Color, PaintedCell, Project, TextAttr};
use terminal_animator::unicode::is_valid_v1_character;

fn editor_on(name: &str, width: u16, height: u16) -> AppState {
    AppState::editor(Project::new_image(name, width, height), None, false, String::new())
}

fn paint(app: &mut AppState, y: u16, x: u16, ch: char) {
    let i = app.current_frame_index;
    app.project.frames[i].cells.insert((y, x), PaintedCell { ch, style_index: 0 });
}

fn rect(x: u16, y: u16, width: u16, height: u16) -> ScreenRect {
    ScreenRect { x, y, width, height }
}

#[test]
fn character_palette_contains_only_valid_v1_characters() {
    for ch in character_palette() {
        assert!(is_valid_v1_character(ch), "{ch:?} should be V1-valid");
    }
}

#[test]
fn visible_color_palette_has_been_expanded() {
    assert!(color_palette().len() >= 24);
}

#[test]
fn selecting_palette_color_creates_new_tool_style_without_recoloring_cells() {
    let mut app = editor_on("palette", 4, 2);
    paint(&mut app, 0, 0, '#');
    let original_style = app.project.styles[0].clone();
    let red = color_palette()
        .into_iter()
        .find(|palette_color| palette_color.name == "red")
        .expect("red palette entry");

    app.select_palette_color(red);

    assert_eq!(app.project.styles[0], original_style);
    assert_eq!(app.project.first_frame().cells[&(0, 0)].style_index, 0);
    assert_eq!(app.project.styles[app.current_style].fg, red.color);
    assert_eq!(app.tool, Tool::Pencil);
    assert!(app.dirty);
}

#[test]
fn background_palette_selection_preserves_foreground_and_attrs() {
    let mut app = editor_on("palette", 4, 2);
    app.project.styles[0].attrs = vec![TextAttr::Bold];
    app.color_target = ColorTarget::Background;
    let original_style = app.project.styles[0].clone();
    let red = color_palette()
        .into_iter()
        .find(|palette_color| palette_color.name == "red")
        .expect("red palette entry");

    app.select_palette_color(red);

    assert_eq!(app.project.styles[0], original_style);
    let selected = &app.project.styles[app.current_style];
    assert_eq!(selected.fg, original_style.fg);
    assert_eq!(selected.bg, Some(red.color));
    assert_eq!(selected.attrs, vec![TextAttr::Bold]);
    assert_eq!(app.tool, Tool::Pencil);
    assert!(app.dirty);
}

#[test]
fn transparent_background_control_keeps_foreground_and_attrs() {
    let mut app = editor_on("palette", 4, 2);
    let foreground = app.project.styles[0].fg;
    let background = Color { r: 12, g: 34, b: 56 };
    app.select_style_variant(foreground, Some(background), vec![TextAttr::Underline], "test bg");

    app.run_color_control(ColorControl::TransparentBackground);

    assert_eq!(app.color_target, ColorTarget::Background);
    let selected = &app.project.styles[app.current_style];
    assert_eq!(selected.fg, foreground);
    assert_eq!(selected.bg, None);
    assert_eq!(selected.attrs, vec![TextAttr::Underline]);
}

#[test]
fn toggling_attrs_creates_non_destructive_style_variant() {
    let mut app = editor_on("attrs", 4, 2);
    app.set_cell_for_stroke(0, 0, Some(PaintedCell { ch: '#', style_index: 0 }));
    app.finish_stroke();

    app.toggle_current_attr(TextAttr::Bold);

    assert!(app.current_style > 0);
    assert_eq!(app.project.styles[0].attrs, Vec::<TextAttr>::new());
    assert_eq!(app.project.styles[app.current_style].attrs, vec![TextAttr::Bold]);
    assert_eq!(app.current_frame().cells[&(0, 0)].style_index, 0);

    app.toggle_current_attr(TextAttr::Bold);

    assert_eq!(app.current_style, 0);
}

#[test]
fn attr_click_uses_sidebar_hit_area() {
    let mut app = editor_on("attrs", 4, 2);
    app.areas.attr_button_areas.push(ButtonHit { action: TextAttr::Underline, area: rect(2, 3, 3, 1) });

    assert!(app.apply_palette_click(3, 3));
    assert_eq!(app.project.styles[app.current_style].attrs, vec![TextAttr::Underline]);
}

#[test]
fn palette_hit_testing_maps_cells_to_items() {
    let area = rect(10, 5, 8, 2);

    assert_eq!(hit_palette_item(area, COLOR_SLOT_WIDTH, 10, 5, 4), Some(0));
    assert_eq!(hit_palette_item(area, COLOR_SLOT_WIDTH, 14, 5, 4), Some(1));
    assert_eq!(hit_palette_item(area, COLOR_SLOT_WIDTH, 10, 6, 4), Some(2));
    assert_eq!(hit_palette_item(area, COLOR_SLOT_WIDTH, 14, 6, 4), Some(3));
    assert_eq!(hit_palette_item(area, COLOR_SLOT_WIDTH, 18, 6, 4), None);
}

#[test]
fn palette_hover_tracks_color_and_character_items() {
    let mut app = editor_on("hover", 4, 2);
    app.areas.color_palette_area = rect(1, 1, 8, 2);
    app.areas.character_palette_area = rect(1, 5, 9, 2);

    app.update_hover(5, 1);
    assert_eq!(app.hover.palette, Some(PaletteHover::Color(1)));

    app.update_hover(7, 5);
    assert_eq!(app.hover.palette, Some(PaletteHover::Character(2)));

    app.update_hover(30, 30);
    assert_eq!(app.hover.palette, None);
}

#[test]
fn hover_tracks_toolbar_controls_and_canvas_cells() {
    let mut app = editor_on("hover", 4, 2);
    app.areas.top_action_areas.push(ButtonHit { action: TopAction::Save, area: rect(1, 1, 6, 1) });
    app.areas.tool_button_area = rect(1, 3, 10, 1);
    app.areas.canvas_area = rect(20, 5, 4, 2);

    app.update_hover(2, 1);
    assert_eq!(app.hover.top_action, Some(TopAction::Save));

    app.update_hover(3, 3);
    assert!(app.hover.tool_button);

    app.update_hover(22, 6);
    assert_eq!(app.hover.canvas_cell, Some((1, 2)));
}

#[test]
fn hover_tracks_color_target_controls() {
    let mut app = editor_on("hover", 4, 2);
    app.areas
        .color_control_areas
        .push(ButtonHit { action: ColorControl::Target(ColorTarget::Background), area: rect(1, 3, 12, 1) });
    app.areas.canvas_area = rect(1, 3, 4, 2);

    app.update_hover(2, 3);

    assert_eq!(app.hover.color_control, Some(ColorControl::Target(ColorTarget::Background)));
    assert_eq!(app.hover.canvas_cell, None);
}

#[test]
fn tool_menu_selection_updates_tool_and_closes_modal() {
    let mut app = editor_on("tool", 4, 2);
    app.modal = Some(Modal::ToolMenu);

    app.select_tool_from_menu(Tool::Eraser);

    assert_eq!(app.tool, Tool::Eraser);
    assert!(app.modal.is_none());
    assert_eq!(app.message, "Eraser selected");
}

#[test]
fn fill_tool_paints_contiguous_matching_cells_as_one_stroke() {
    let mut app = editor_on("fill", 3, 1);
    paint(&mut app, 0, 0, 'a');
    paint(&mut app, 0, 1, 'a');
    paint(&mut app, 0, 2, 'b');
    app.brush_char = '#';

    app.fill_at(0, 0);

    assert_eq!(app.current_frame().cells[&(0, 0)].ch, '#');
    assert_eq!(app.current_frame().cells[&(0, 1)].ch, '#');
    assert_eq!(app.current_frame().cells[&(0, 2)].ch, 'b');
    assert_eq!(app.undo_stack.len(), 1);

    app.undo();

    assert_eq!(app.current_frame().cells[&(0, 0)].ch, 'a');
    assert_eq!(app.current_frame().cells[&(0, 1)].ch, 'a');
}

#[test]
fn fill_tool_respects_transparent_boundaries() {
    let mut app = editor_on("fill", 3, 1);
    paint(&mut app, 0, 1, '|');
    app.brush_char = '.';

    app.fill_at(0, 0);

    assert_eq!(app.current_frame().cells[&(0, 0)].ch, '.');
    assert_eq!(app.current_frame().cells[&(0, 1)].ch, '|');
    assert!(!app.current_frame().cells.contains_key(&(0, 2)));
}

#[test]
fn copy_selection_creates_current_stamp() {
    let mut app = editor_on("select", 3, 2);
    paint(&mut app, 0, 1, 'x');
    app.selection = Some(CellRect { x: 1, y: 0, width: 2, height: 2 });

    app.copy_selection_to_stamp();

    let stamp = app.current_stamp().expect("current stamp");
    assert_eq!(stamp.width, 2);
    assert_eq!(stamp.height, 2);
    assert_eq!(stamp.cells[&(0, 0)].ch, 'x');
    assert_eq!(app.stamps.len(), 1);
}

#[test]
fn moving_selection_handles_overlap_and_undoes_as_one_change() {
    let mut app = editor_on("move", 4, 1);
    paint(&mut app, 0, 0, 'a');
    paint(&mut app, 0, 1, 'b');
    let source = CellRect { x: 0, y: 0, width: 2, height: 1 };
    let stamp = app.capture_rect(source);

    app.commit_selection_move(MovingSelection { source, stamp, grab_offset: (0, 0), destination: (1, 0) });

    assert!(!app.current_frame().cells.contains_key(&(0, 0)));
    assert_eq!(app.current_frame().cells[&(0, 1)].ch, 'a');
    assert_eq!(app.current_frame().cells[&(0, 2)].ch, 'b');
    assert_eq!(app.undo_stack.len(), 1);

    app.undo();

    assert_eq!(app.current_frame().cells[&(0, 0)].ch, 'a');
    assert_eq!(app.current_frame().cells[&(0, 1)].ch, 'b');
    assert!(!app.current_frame().cells.contains_key(&(0, 2)));
}

#[test]
fn cut_selection_creates_stamp_and_paste_places_it() {
    let mut app = editor_on("stamp", 4, 1);
    paint(&mut app, 0, 0, 'z');
    app.selection = Some(CellRect { x: 0, y: 0, width: 1, height: 1 });

    app.cut_selection_to_stamp();

    assert_eq!(app.tool, Tool::Stamp);
    assert!(!app.current_frame().cells.contains_key(&(0, 0)));
    assert!(app.current_stamp().is_some());

    app.paste_stamp_at(2, 0);

    assert_eq!(app.current_frame().cells[&(0, 2)].ch, 'z');
}

#[test]
fn text_tool_places_string_as_one_undoable_edit() {
    let mut app = editor_on("text", 4, 1);

    app.place_text(1, 0, "Hi");

    assert_eq!(app.current_frame().cells[&(0, 1)].ch, 'H');
    assert_eq!(app.current_frame().cells[&(0, 2)].ch, 'i');
    assert_eq!(app.undo_stack.len(), 1);

    app.undo();

    assert!(!app.current_frame().cells.contains_key(&(0, 1)));
    assert!(!app.current_frame().cells.contains_key(&(0, 2)));
}

#[test]
fn text_tool_clips_at_canvas_edge() {
    let mut app = editor_on("text", 3, 1);

    app.place_text(2, 0, "ABC");

    assert_eq!(app.current_frame().cells[&(0, 2)].ch, 'A');
    assert_eq!(app.current_frame().cells.len(), 1);
    assert!(app.message.contains("clipped"));
}

#[test]
fn text_modal_rejects_invalid_characters() {
    let mut app = editor_on("text", 4, 1);

    app.commit_modal(Modal::TextInput { input: "\n".to_string(), start: (0, 0) });

    assert!(matches!(app.modal, Some(Modal::TextInput { .. })));
    assert!(app.message.contains("invalid V1 character"));
}

#[test]
fn line_tool_draws_diagonal_as_one_undoable_edit() {
    let mut app = editor_on("line", 3, 3);
    app.brush_char = '*';

    app.draw_shape(ShapeDrag { tool: Tool::Line, start: (0, 0), end: (2, 2) });

    assert_eq!(app.current_frame().cells[&(0, 0)].ch, '*');
    assert_eq!(app.current_frame().cells[&(1, 1)].ch, '*');
    assert_eq!(app.current_frame().cells[&(2, 2)].ch, '*');
    assert_eq!(app.undo_stack.len(), 1);

    app.undo();

    assert!(app.current_frame().cells.is_empty());
}

#[test]
fn rectangle_tool_draws_outline_only() {
    let mut app = editor_on("rect", 4, 3);
    app.brush_char = '#';

    app.draw_shape(ShapeDrag { tool: Tool::Rectangle, start: (0, 0), end: (3, 2) });

    assert_eq!(app.current_frame().cells.len(), 10);
    assert_eq!(app.current_frame().cells[&(0, 0)].ch, '#');
    assert_eq!(app.current_frame().cells[&(2, 3)].ch, '#');
    assert!(!app.current_frame().cells.contains_key(&(1, 1)));
}

#[test]
fn next_frame_creates_animation_frame_by_copying_current_frame() {
    let mut app = editor_on("anim", 4, 2);
    app.set_cell_for_stroke(1, 0, Some(PaintedCell { ch: '#', style_index: 0 }));
    app.finish_stroke();

    app.next_frame_or_create();

    assert_eq!(app.project.asset.kind, AssetKind::Animation);
    assert_eq!(app.project.frames.len(), 2);
    assert_eq!(app.current_frame_index, 1);
    assert_eq!(app.current_frame().cells[&(0, 1)], PaintedCell { ch: '#', style_index: 0 });
    assert!(app.dirty);
}

#[test]
fn blank_frame_creates_empty_current_frame() {
    let mut app = editor_on("anim", 4, 2);
    app.set_cell_for_stroke(1, 0, Some(PaintedCell { ch: '#', style_index: 0 }));
    app.finish_stroke();

    app.insert_blank_frame();

    assert_eq!(app.project.frames.len(), 2);
    assert!(app.current_frame().cells.is_empty());
    assert_eq!(app.project.asset.kind, AssetKind::Animation);
}

#[test]
fn undo_applies_to_frame_that_was_edited() {
    let mut app = editor_on("anim", 4, 2);
    app.insert_blank_frame();
    app.set_cell_for_stroke(2, 0, Some(PaintedCell { ch: '*', style_index: 0 }));
    app.finish_stroke();
    app.current_frame_index = 0;

    app.undo();

    assert_eq!(app.current_frame_index, 1);
    assert!(!app.project.frames[1].cells.contains_key(&(0, 2)));
}

#[test]
fn onion_skin_toggle_is_local_view_state() {
    let mut app = editor_on("anim", 4, 2);

    app.toggle_onion_skin();
    assert!(app.onion_skin);
    assert!(!app.dirty);

    app.toggle_onion_skin();
    assert!(!app.onion_skin);
}

#[test]
fn rgb_slider_maps_mouse_columns_to_values() {
    let area = rect(10, 2, 11, 1);

    assert_eq!(rgb_slider_value_at(area, 0), 0);
    assert_eq!(rgb_slider_value_at(area, 10), 0);
    assert_eq!(rgb_slider_value_at(area, 15), 128);
    assert_eq!(rgb_slider_value_at(area, 20), 255);
    assert_eq!(rgb_slider_value_at(area, 99), 255);
}

#[test]
fn rgb_slider_control_updates_modal_color() {
    let mut app = editor_on("rgb", 4, 2);
    app.modal = Some(Modal::RgbInput { color: Color { r: 0, g: 0, b: 0 } });
    app.areas
        .modal_rgb_areas
        .push(ButtonHit { action: RgbControl::Slider(RgbChannel::Red), area: rect(10, 1, 11, 1) });

    app.apply_rgb_control(RgbControl::Slider(RgbChannel::Red), 20);

    assert_eq!(app.dragging_rgb_channel, Some(RgbChannel::Red));
    assert!(matches!(app.modal, Some(Modal::RgbInput { color: Color { r: 255, g: 0, b: 0 } })));
}

#[test]
fn rgb_input_uses_active_background_color() {
    let mut app = editor_on("rgb", 4, 2);
    let background = Color { r: 20, g: 40, b: 60 };
    let fg = app.project.styles[0].fg;
    app.select_style_variant(fg, Some(background), Vec::new(), "test bg");
    app.color_target = ColorTarget::Background;

    app.open_rgb_input();

    assert!(matches!(app.modal, Some(Modal::RgbInput { color }) if color == background));
}

#[test]
fn selecting_hidden_picker_color_adds_recent() {
    let mut app = editor_on("recent", 4, 2);
    let color = Color { r: 51, g: 102, b: 153 };
    assert!(!is_visible_palette_color(color));

    app.select_custom_color(color, true);
    app.select_custom_color(color, true);

    assert_eq!(app.recent_extra_colors, vec![color]);
    assert_eq!(app.project.styles[app.current_style].fg, color);
}

#[test]
fn welcome_actions_open_expected_flows() {
    let mut app = AppState::welcome(String::new());

    app.run_welcome_action(WelcomeAction::NewImage);
    assert!(matches!(app.modal, Some(Modal::NewImage { .. })));

    app.close_modal(String::new());
    app.run_welcome_action(WelcomeAction::NewAnimation);
    assert!(matches!(app.modal, Some(Modal::NewAnimation { .. })));

    app.close_modal(String::new());
    app.run_welcome_action(WelcomeAction::OpenFile);
    assert!(matches!(app.modal, Some(Modal::OpenFile { .. })));
}

#[test]
fn export_top_action_opens_export_menu() {
    let mut app = editor_on("export", 4, 2);

    app.run_top_action(TopAction::ExportText);
    assert!(matches!(app.modal, Some(Modal::ExportMenu)));

    app.run_modal_action(ModalAction::ExportAnsi);
    assert!(matches!(app.modal, Some(Modal::ExportAnsi { .. })));
}

#[test]
fn new_animation_modal_creates_animation_asset() {
    let mut app = AppState::welcome(String::new());
    app.modal = Some(Modal::NewAnimation { input: "12x4".to_string(), target_path: None });

    let modal = app.modal.take().expect("new animation modal");
    let request = app.commit_modal(modal);

    assert!(matches!(request, Request::Nothing));
    assert_eq!(app.screen, Screen::Editor);
    assert_eq!(app.project.asset.kind, AssetKind::Animation);
    assert_eq!(app.project.asset.width, 12);
    assert_eq!(app.project.asset.height, 4);
    assert_eq!(app.project.frames.len(), 1);
}

#[test]
fn save_as_existing_path_asks_for_confirmation_before_saving() {
    let mut app = AppState::editor(Project::new_image("save", 4, 2), None, true, String::new());

    let request = app.commit_modal(Modal::SaveAs { input: "  existing.tanim.toml ".to_string() });
    let path = match request {
        Request::CheckSaveTarget { path } => path,
        other => panic!("expected a target check, got {other:?}"),
    };
    assert_eq!(path, "existing.tanim.toml");

    let request = app.finish_save_target(path, true);
    assert!(matches!(request, Request::Nothing));
    assert!(matches!(app.modal, Some(Modal::OverwriteConfirm { .. })));
    assert!(app.file_path.is_none());

    let modal = app.modal.take().expect("overwrite modal");
    let request = app.commit_modal(modal);
    match request {
        Request::Save { path, quit_after } => {
            assert_eq!(path, "existing.tanim.toml");
            assert!(!quit_after);
        },
        other => panic!("expected a save, got {other:?}"),
    }
    assert_eq!(app.file_path.as_deref(), Some("existing.tanim.toml"));

    app.finish_save("existing.tanim.toml", Ok(0), false);
    assert!(!app.dirty);
    assert_eq!(app.message, "Saved existing.tanim.toml");
}

#[test]
fn ansi_modal_asks_to_export_current_frame() {
    let mut app = editor_on("export", 2, 1);
    app.insert_blank_frame();
    app.set_cell_for_stroke(0, 0, Some(PaintedCell { ch: 'Z', style_index: 0 }));
    app.finish_stroke();

    let request = app.commit_modal(Modal::ExportAnsi { input: "current.ansi".to_string() });

    match request {
        Request::WriteAnsi { path, contents } => {
            assert_eq!(path, "current.ansi");
            assert!(contents.contains('Z'));
        },
        other => panic!("expected an ANSI export, got {other:?}"),
    }
}

#[test]
fn save_as_adds_the_document_suffix_to_a_base_name() {
    let mut app = editor_on("named", 2, 1);
    let request = app.commit_modal(Modal::SaveAs { input: "  drawing ".to_string() });
    match request {
        Request::CheckSaveTarget { path } => assert_eq!(path, "drawing.tanim.toml"),
        _ => panic!("expected a save target check"),
    }
    let request = app.commit_modal(Modal::SaveAs { input: "kept.tanim.toml".to_string() });
    match request {
        Request::CheckSaveTarget { path } => assert_eq!(path, "kept.tanim.toml"),
        _ => panic!("expected a save target check"),
    }
}

#[test]
fn quitting_with_unsaved_changes_asks_first() {
    let mut app = AppState::editor(Project::new_image("dirty", 2, 1), None, true, String::new());
    app.handle_key(KeyEvent { code: KeyCode::Char('q'), ctrl: false, release: false });
    assert!(!app.should_quit);
    assert!(matches!(app.modal, Some(Modal::QuitConfirm)));

    let mut clean = editor_on("clean", 2, 1);
    clean.handle_key(KeyEvent { code: KeyCode::Char('q'), ctrl: false, release: false });
    assert!(clean.should_quit);
}

#[test]
fn a_valid_brush_character_closes_its_dialog() {
    let mut app = editor_on("brush", 2, 1);
    app.commit_modal(Modal::BrushChar { input: "*".to_string() });
    assert_eq!(app.brush_char, '*');
    assert!(app.modal.is_none());
}

#[test]
fn lines_follow_bresenham_steps() {
    let diagonal: BTreeSet<(u16, u16)> = [(0, 0), (1, 1), (2, 2)].into_iter().collect();
    assert_eq!(line_points((0, 0), (2, 2)), diagonal);
    let shallow: BTreeSet<(u16, u16)> = [(0, 0), (1, 0), (2, 1), (3, 1)].into_iter().collect();
    assert_eq!(line_points((0, 0), (3, 1)), shallow);
}

#[test]
fn plain_file_names_give_their_stem_and_siblings() {
    assert_eq!(asset_name_from_path("demo.tanim.toml"), "demo.tanim");
    assert_eq!(asset_name_from_path(".hidden"), ".hidden");
    assert_eq!(default_text_export_path("demo.tanim.toml"), "demo.tanim.txt");
    assert_eq!(temporary_path_for("demo.tanim.toml"), ".demo.tanim.toml.tmp");
}

#[test]
fn undo_after_moving_to_another_frame_returns_to_the_edited_frame() {
    let mut app = editor_on("frames", 3, 1);
    app.insert_blank_frame();
    assert_eq!(app.current_frame_index, 1);
    app.set_cell_for_stroke(0, 0, Some(PaintedCell { ch: '#', style_index: 0 }));
    app.finish_stroke();
    app.previous_frame_or_message();
    assert_eq!(app.current_frame_index, 0);
    app.undo();
    assert_eq!(app.current_frame_index, 1);
    assert!(app.project.frames[1].cells.is_empty());
}

#[test]
fn undo_takes_back_a_fill_after_moving_to_another_frame() {
    let mut app = editor_on("fill", 3, 2);
    paint(&mut app, 0, 0, '#');
    app.insert_blank_frame();
    assert_eq!(app.current_frame_index, 1);
    paint(&mut app, 1, 2, '#');
    let before = app.project.frames.clone();
    app.fill_at(0, 0);
    assert_eq!(app.project.frames[1].cells.len(), 6);
    app.previous_frame_or_message();
    assert_eq!(app.current_frame_index, 0);

    app.undo();

    assert_eq!(app.current_frame_index, 1);
    assert_eq!(app.project.frames, before);
    assert_eq!(app.redo_stack.len(), 1);
    assert!(app.dirty);
}

#[test]
fn a_line_has_one_point_per_column_or_row_it_spans_most() {
    assert_eq!(line_points((0, 0), (5, 2)).len(), 6);
    assert_eq!(line_points((1, 1), (1, 4)).len(), 4);
    assert_eq!(line_points((2, 7), (0, 0)).len(), 8);
    assert_eq!(line_points((3, 3), (3, 3)).len(), 1);
    let diagonal = line_points((4, 0), (0, 4));
    assert_eq!(diagonal.len(), 5);
    assert!(diagonal.contains(&(2, 2)));
}
