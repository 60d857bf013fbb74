use terminal_animator::editor::actions::{
    default_ansi_export_path, default_text_export_path, temporary_file_name_for, temporary_path_for, Request,
};
use terminal_animator::editor::controls::{ModalAction, RgbChannel, RgbControl, SelectionAction, Tool, TopAction, WelcomeAction};
use terminal_animator::editor::geometry::{draw_sidebar_spacer, CellRect, ScreenRect};
use terminal_animator::editor::input::{KeyCode, KeyEvent};
use terminal_animator::editor::palette::{channel_color, character_palette, color_palette, readable_text_color};
use terminal_animator::editor::sidebar::sidebar_layout;
use terminal_animator::editor::state::{AppState, Modal, ShapeDrag};
use terminal_animator::editor::view::{
    attr_button_layout, modal_actions, modal_body, modal_button_layout, modal_title, rgb_row_layout,
    selection_button_layout, tool_menu_rows, top_bar_layout, CellLook,
};
use terminal_animator::model::{Color, PaintedCell, Project, TextAttr};

fn area(x: u16, y: u16, width: u16, height: u16) -> ScreenRect {
    ScreenRect { x, y, width, height }
}

fn blank_editor(width: u16, height: u16) -> AppState {
    AppState::editor(Project::new_image("view", width, height), None, false, String::new())
}

#[test]
fn dialog_buttons_are_centered_above_the_bottom_border() {
    let hits = modal_button_layout(area(10, 5, 40, 9), &vec![ModalAction::Confirm, ModalAction::Cancel]);
    assert_eq!(hits.len(), 2);
    assert_eq!(hits[0].action, ModalAction::Confirm);
    assert_eq!(hits[0].area, area(21, 12, 6, 1));
    assert_eq!(hits[1].action, ModalAction::Cancel);
    assert_eq!(hits[1].area, area(28, 12, 10, 1));

    assert!(modal_button_layout(area(10, 5, 3, 9), &vec![ModalAction::Confirm]).is_empty());
}

#[test]
fn top_bar_places_buttons_from_the_right_while_they_fit() {
    let (hits, text_width) = top_bar_layout(area(0, 1, 30, 1));
    let placed: Vec<(TopAction, ScreenRect)> = hits.iter().map(|h| (h.action, h.area)).collect();
    assert_eq!(
        placed,
        vec![
            (TopAction::Quit, area(24, 1, 6, 1)),
            (TopAction::ExportText, area(15, 1, 8, 1)),
            (TopAction::SaveAs, area(5, 1, 9, 1)),
        ]
    );
    assert_eq!(text_width, 3);
}

#[test]
fn tool_menu_rows_fill_the_space_below_the_hint() {
    let rows = tool_menu_rows(area(2, 3, 20, 6));
    let tools: Vec<Tool> = rows.iter().map(|h| h.action).collect();
    assert_eq!(tools, vec![Tool::Pencil, Tool::Eraser, Tool::Eyedropper, Tool::Fill]);
    assert_eq!(rows[0].area, area(2, 5, 20, 1));
    assert_eq!(rows[3].area, area(2, 8, 20, 1));
    assert_eq!(tool_menu_rows(area(0, 0, 30, 40)).len(), 9);
}

#[test]
fn sidebar_buttons_stop_at_the_edge() {
    let attrs = attr_button_layout(area(0, 0, 20, 30), 4);
    let placed: Vec<(TextAttr, u16)> = attrs.iter().map(|h| (h.action, h.area.x)).collect();
    assert_eq!(placed, vec![(TextAttr::Bold, 7), (TextAttr::Dim, 11), (TextAttr::Italic, 15)]);
    assert!(attrs.iter().all(|h| h.area.y == 4 && h.area.width == 3));

    let buttons = selection_button_layout(area(0, 0, 20, 30), 2);
    let placed: Vec<(SelectionAction, ScreenRect)> = buttons.iter().map(|h| (h.action, h.area)).collect();
    assert_eq!(placed, vec![(SelectionAction::Copy, area(0, 2, 6, 1)), (SelectionAction::Cut, area(7, 2, 5, 1))]);
}

#[test]
fn rgb_rows_need_room_for_a_track() {
    let row = rgb_row_layout(area(0, 3, 40, 1));
    assert_eq!(row.decrement, Some(area(7, 3, 3, 1)));
    assert_eq!(row.slider, Some(area(11, 3, 21, 1)));
    assert_eq!(row.increment, Some(area(33, 3, 3, 1)));
    assert_eq!(row.value_x, 37);

    let narrow = rgb_row_layout(area(0, 3, 25, 1));
    assert!(narrow.decrement.is_none() && narrow.slider.is_none() && narrow.increment.is_none());
}

#[test]
fn dialog_texts_name_the_dialog_and_its_input() {
    let text = Modal::TextInput { input: "hi".to_string(), start: (3, 4) };
    assert_eq!(modal_title(&text), "Text");
    assert_eq!(modal_body(&text), "At 3,4: hi");
    let confirm = Modal::OverwriteConfirm { path: "a.tanim.toml".to_string() };
    assert_eq!(modal_body(&confirm), "Replace existing file a.tanim.toml?");
    assert_eq!(modal_actions(&Modal::QuitConfirm), vec![ModalAction::SaveAndQuit, ModalAction::Discard, ModalAction::Cancel]);
    assert_eq!(modal_actions(&Modal::ExportMenu), vec![ModalAction::ExportText, ModalAction::ExportAnsi, ModalAction::Cancel]);
    assert_eq!(modal_actions(&confirm), vec![ModalAction::Confirm, ModalAction::Cancel]);
}

#[test]
fn canvas_cells_show_preview_then_frame_then_onion() {
    let mut app = blank_editor(4, 2);
    app.project.frames[0].cells.insert((0, 1), PaintedCell { ch: 'x', style_index: 0 });
    app.shape_drag = Some(ShapeDrag { tool: Tool::Line, start: (0, 0), end: (2, 0) });
    let shape = app.shape_preview();

    assert_eq!(app.cell_view(&shape, 1, 0).look, CellLook::ShapePreview);
    assert_eq!(app.cell_view(&shape, 3, 0).look, CellLook::Empty);
    assert_eq!(app.cell_view(&None, 1, 0).look, CellLook::Painted(PaintedCell { ch: 'x', style_index: 0 }));

    app.shape_drag = None;
    app.insert_blank_frame();
    app.toggle_onion_skin();
    assert_eq!(app.cell_view(&None, 1, 0).look, CellLook::Onion(PaintedCell { ch: 'x', style_index: 0 }));

    app.selection = Some(CellRect { x: 0, y: 0, width: 2, height: 2 });
    assert_eq!(app.cell_view(&None, 0, 0).border, Some("+"));
    assert_eq!(app.cell_view(&None, 0, 1).border, Some("+"));
    assert_eq!(app.cell_view(&None, 3, 1).border, None);
}

#[test]
fn color_picker_lays_out_visible_entries_and_scrolls() {
    let mut app = blank_editor(4, 2);
    app.areas.modal_area = area(0, 0, 60, 20);
    app.modal = Some(Modal::ColorPicker);

    let entries = app.picker_entries();
    assert_eq!(entries.len(), 168);
    assert_eq!(entries[0].action, 0);
    assert_eq!(entries[0].area, area(6, 3, 4, 1));
    assert_eq!(entries[13].action, 13);
    assert_eq!(entries[13].area, area(10, 4, 4, 1));

    for _ in 0..10 {
        let request = app.handle_key(KeyEvent { code: KeyCode::PageDown, ctrl: false, release: false });
        assert!(matches!(request, Request::Nothing));
    }
    assert_eq!(app.color_picker_scroll_row, 5);
    assert_eq!(app.picker_entries()[0].action, 60);

    app.handle_key(KeyEvent { code: KeyCode::Up, ctrl: false, release: false });
    assert_eq!(app.color_picker_scroll_row, 4);
    app.handle_key(KeyEvent { code: KeyCode::Esc, ctrl: false, release: false });
    assert!(app.modal.is_none());
    assert_eq!(app.message, "Color picker closed");
}

#[test]
fn small_helpers_compute_exact_values() {
    assert_eq!(readable_text_color(Color { r: 255, g: 255, b: 255 }), Color { r: 24, g: 28, b: 32 });
    assert_eq!(readable_text_color(Color { r: 0, g: 0, b: 0 }), Color { r: 245, g: 248, b: 250 });
    assert_eq!(readable_text_color(Color { r: 150, g: 150, b: 150 }), Color { r: 245, g: 248, b: 250 });
    assert_eq!(channel_color(RgbChannel::Green), Color { r: 92, g: 214, b: 132 });
    assert_eq!(temporary_file_name_for(Some("a.tanim.toml".to_string())), ".a.tanim.toml.tmp");
    assert_eq!(temporary_file_name_for(None), ".terminal_animator.tmp");

    let mut y = 3;
    draw_sidebar_spacer(&mut y, 5);
    assert_eq!(y, 4);
    draw_sidebar_spacer(&mut y, 4);
    assert_eq!(y, 4);
}

#[test]
fn sidebar_rows_follow_one_another_and_palettes_fill_their_rows() {
    let inner = area(1, 2, 20, 60);
    let layout = sidebar_layout(inner, false, false, false, 0);
    assert_eq!(layout.tool_row, Some(2));
    assert_eq!(layout.brush_row, Some(3));
    assert_eq!(layout.style_row, Some(4));
    assert_eq!(layout.fg_row, Some(5));
    assert_eq!(layout.bg_row, Some(6));
    assert_eq!(layout.clear_bg_row, None);
    assert_eq!(layout.attrs_row, Some(7));
    assert_eq!(layout.info_row, None);
    assert_eq!(layout.selection_buttons_row, None);
    assert_eq!(layout.colors_title_row, Some(9));
    let color_rows = ((color_palette().len() + 4) / 5) as u16;
    assert_eq!(layout.color_palette, area(1, 10, 20, color_rows));
    assert_eq!(layout.recents_title_row, None);
    assert_eq!(layout.recent_palette, area(0, 0, 0, 0));
    let after_colors = 10 + color_rows;
    assert_eq!(layout.more_colors_row, Some(after_colors + 1));
    assert_eq!(layout.rgb_row, Some(after_colors + 2));
    assert_eq!(layout.characters_title_row, Some(after_colors + 4));
    let char_rows = ((character_palette().len() + 5) / 6) as u16;
    assert_eq!(layout.character_palette, area(1, after_colors + 5, 20, char_rows));
    assert_eq!(layout.first_hint_row, Some(after_colors + 5 + char_rows + 1));
    assert_eq!(layout.second_hint_row, Some(after_colors + 5 + char_rows + 2));
}

#[test]
fn sidebar_keeps_recent_colors_to_three_rows_and_stops_at_the_bottom() {
    let inner = area(0, 0, 8, 18);
    let layout = sidebar_layout(inner, true, true, true, 40);
    assert_eq!(layout.clear_bg_row, Some(5));
    assert_eq!(layout.attrs_row, Some(6));
    assert_eq!(layout.info_row, Some(7));
    assert_eq!(layout.selection_buttons_row, Some(8));
    assert_eq!(layout.colors_title_row, Some(10));
    assert_eq!(layout.color_palette, area(0, 11, 8, 7));
    assert_eq!(layout.recents_title_row, None);
    assert_eq!(layout.recent_palette, area(0, 0, 0, 0));
    assert_eq!(layout.more_colors_row, None);
    assert_eq!(layout.second_hint_row, None);

    let roomy = sidebar_layout(area(0, 0, 8, 200), false, false, false, 40);
    assert_eq!(roomy.recent_palette.height, 3);
}

#[test]
fn placing_the_sidebar_records_its_controls() {
    let mut app = blank_editor(4, 2);
    let inner = area(1, 2, 30, 60);
    let layout = app.place_sidebar(inner);
    assert_eq!(app.areas.tool_button_area, area(1, 2, 30, 1));
    assert_eq!(app.areas.brush_button_area, area(1, 3, 30, 1));
    assert_eq!(app.areas.color_control_areas.len(), 2);
    assert_eq!(app.areas.color_control_areas[0].area, area(1, 5, 30, 1));
    assert_eq!(app.areas.attr_button_areas.len(), 5);
    assert_eq!(app.areas.attr_button_areas[0].area, area(8, 7, 3, 1));
    assert!(app.areas.selection_action_areas.is_empty());
    assert_eq!(app.areas.color_palette_area, layout.color_palette);
    assert_eq!(app.areas.character_palette_area, layout.character_palette);
}

#[test]
fn welcome_buttons_are_centered_two_rows_apart() {
    let mut app = blank_editor(4, 2);
    let layout = app.place_welcome(area(0, 0, 80, 24));
    assert_eq!(layout.title_row, 7);
    assert_eq!(layout.subtitle_row, 8);
    let hits = &app.areas.welcome_action_areas;
    assert_eq!(hits.len(), 4);
    assert_eq!(hits[0].action, WelcomeAction::NewImage);
    assert_eq!(hits[0].area, area(30, 10, 20, 1));
    assert_eq!(hits[3].action, WelcomeAction::Quit);
    assert_eq!(hits[3].area, area(30, 16, 20, 1));
    assert_eq!(layout.message_row, 19);
}

#[test]
fn welcome_buttons_stop_at_the_bottom_row() {
    let mut app = blank_editor(4, 2);
    let layout = app.place_welcome(area(0, 0, 30, 8));
    assert_eq!(layout.title_row, 0);
    assert_eq!(app.areas.welcome_action_areas.len(), 3);
    assert_eq!(app.areas.welcome_action_areas[2].area, area(5, 7, 20, 1));
    assert_eq!(layout.message_row, 10);
}

#[test]
fn rgb_mixer_puts_sliders_beside_the_preview_when_wide() {
    let mut app = blank_editor(4, 2);
    let layout = app.place_rgb_mixer(area(0, 0, 74, 16));
    assert_eq!(layout.preview, area(0, 2, 16, 6));
    assert_eq!(layout.row_areas[1], area(19, 5, 55, 1));
    assert_eq!(layout.hex_row, 13);
    let hits = &app.areas.modal_rgb_areas;
    assert_eq!(hits.len(), 9);
    assert_eq!(hits[0].action, RgbControl::Decrement(RgbChannel::Red));
    assert_eq!(hits[0].area, area(26, 2, 3, 1));
    assert_eq!(hits[1].action, RgbControl::Slider(RgbChannel::Red));
    assert_eq!(hits[1].area, area(30, 2, 36, 1));
    assert_eq!(hits[2].action, RgbControl::Increment(RgbChannel::Red));
    assert_eq!(hits[2].area, area(67, 2, 3, 1));
    assert_eq!(hits[8].action, RgbControl::Increment(RgbChannel::Blue));
    assert_eq!(layout.rows[0].value_x, 71);
}

#[test]
fn rgb_mixer_stacks_sliders_under_the_preview_when_narrow() {
    let mut app = blank_editor(4, 2);
    let layout = app.place_rgb_mixer(area(0, 0, 40, 16));
    assert_eq!(layout.preview, area(0, 2, 20, 4));
    assert_eq!(layout.row_areas[0], area(0, 7, 40, 1));
    assert_eq!(layout.row_areas[2], area(0, 13, 40, 1));
    assert_eq!(app.areas.modal_rgb_areas[1].area, area(11, 7, 21, 1));
}

#[test]
fn top_bar_text_names_the_document_and_the_frame() {
    let mut app = blank_editor(4, 2);
    app.set_cell_for_stroke(0, 0, Some(PaintedCell { ch: '#', style_index: 0 }));
    app.finish_stroke();
    assert_eq!(app.top_bar_text(), " untitled * | 4x2 | image | frame 1/1 | 1 cells | onion off");
    app.file_path = Some("art.tanim.toml".to_string());
    app.dirty = false;
    assert_eq!(app.top_bar_text(), " art.tanim.toml | 4x2 | image | frame 1/1 | 1 cells | onion off");
}

#[test]
fn export_paths_swap_the_extension() {
    assert_eq!(default_text_export_path("art/demo.tanim.toml"), "art/demo.tanim.txt");
    assert_eq!(default_ansi_export_path("art/demo.tanim.toml"), "art/demo.tanim.ansi");
    assert_eq!(default_text_export_path("plain"), "plain.txt");
}

#[test]
fn saves_go_first_to_a_hidden_file_beside_the_document() {
    let tmp = temporary_path_for("art/demo.tanim.toml");
    assert!(tmp.ends_with(".demo.tanim.toml.tmp"));
    assert!(tmp.starts_with("art"));
    assert!(temporary_path_for("").ends_with(".terminal_animator.tmp"));
}
