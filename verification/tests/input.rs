use terminal_animator::editor::actions::{startup_from_path, OpenOutcome, Request, Startup};
use terminal_animator::editor::controls::{Screen, Tool};
use terminal_animator::editor::dimensions::parse_new_dimensions;
use terminal_animator::editor::geometry::ScreenRect;
use terminal_animator::editor::input::{KeyCode, KeyEvent, MouseEvent, MouseKind};
use terminal_animator::editor::naming::{next_frame_id, next_style_id, unique_style_id};
use terminal_animator::editor::state::{AppState, ButtonHit, Modal};
use terminal_animator::error::FormatError;
use terminal_animator::model::{Color, LoadedProject, PaintedCell, Project, ValidationMessage, ValidationReport};

fn app_on(width: u16, height: u16) -> AppState {
    AppState::editor(Project::new_image("keys", width, height), None, false, String::new())
}

fn press(code: KeyCode) -> KeyEvent {
    KeyEvent { code, ctrl: false, release: false }
}

fn ctrl(ch: char) -> KeyEvent {
    KeyEvent { code: KeyCode::Char(ch), ctrl: true, release: false }
}

fn type_text(app: &mut AppState, text: &str) {
    for ch in text.chars() {
        app.handle_key(press(KeyCode::Char(ch)));
    }
}

fn click(column: u16, row: u16) -> MouseEvent {
    MouseEvent { kind: MouseKind::LeftDown, column, row }
}

#[test]
fn dialog_typing_edits_input_and_enter_commits() {
    let mut app = app_on(4, 2);
    app.handle_key(press(KeyCode::Char('c')));
    assert!(matches!(&app.modal, Some(Modal::BrushChar { input }) if input == "#"));

    app.handle_key(press(KeyCode::Backspace));
    type_text(&mut app, "@");
    assert!(matches!(&app.modal, Some(Modal::BrushChar { input }) if input == "@"));

    let request = app.handle_key(press(KeyCode::Enter));
    assert!(matches!(request, Request::Nothing));
    assert_eq!(app.brush_char, '@');
    assert!(app.modal.is_none());
    assert_eq!(app.message, "Brush character set to '@'");
}

#[test]
fn brush_dialog_refuses_two_characters() {
    let mut app = app_on(4, 2);
    app.handle_key(press(KeyCode::Char('c')));
    type_text(&mut app, "x");
    app.handle_key(press(KeyCode::Enter));
    assert_eq!(app.brush_char, '#');
    assert!(matches!(&app.modal, Some(Modal::BrushChar { input }) if input == "#x"));
    assert_eq!(app.message, "Brush character must be one valid V1 character");
}

#[test]
fn key_release_and_control_typing_change_nothing() {
    let mut app = app_on(4, 2);
    app.handle_key(KeyEvent { code: KeyCode::Char('q'), ctrl: false, release: true });
    assert!(!app.should_quit);

    app.handle_key(press(KeyCode::Char('a')));
    let before = match &app.modal {
        Some(Modal::NewStyle { input }) => input.clone(),
        _ => panic!("new style dialog expected"),
    };
    assert_eq!(before, "style-1");
    app.handle_key(ctrl('z'));
    assert!(matches!(&app.modal, Some(Modal::NewStyle { input }) if *input == before));
}

#[test]
fn escape_cancels_a_dialog() {
    let mut app = app_on(4, 2);
    app.handle_key(press(KeyCode::Char('f')));
    assert!(matches!(&app.modal, Some(Modal::SetFg { input }) if input == "#EEEEEE"));
    app.handle_key(press(KeyCode::Esc));
    assert!(app.modal.is_none());
    assert_eq!(app.message, "Canceled");
}

#[test]
fn new_style_dialog_adds_a_style_copy() {
    let mut app = app_on(4, 2);
    app.handle_key(press(KeyCode::Char('a')));
    app.handle_key(press(KeyCode::Enter));
    assert_eq!(app.project.styles.len(), 2);
    assert_eq!(app.current_style, 1);
    assert_eq!(app.project.styles[1].id, "style-1");
    assert_eq!(app.project.styles[1].fg, app.project.styles[0].fg);
    assert!(app.project.styles[1].role.is_none());
    assert_eq!(app.message, "Created style \"style-1\"");
    assert!(app.dirty);
}

#[test]
fn new_style_dialog_refuses_a_taken_id() {
    let mut app = app_on(4, 2);
    let request = app.commit_modal(Modal::NewStyle { input: " default ".to_string() });
    assert!(matches!(request, Request::Nothing));
    assert_eq!(app.project.styles.len(), 1);
    assert_eq!(app.message, "Style ID must be non-empty and unique");
    assert!(matches!(&app.modal, Some(Modal::NewStyle { input }) if input == " default "));
}

#[test]
fn rename_keeps_role_and_colors() {
    let mut app = app_on(4, 2);
    app.commit_modal(Modal::RenameStyle { input: "ink".to_string() });
    assert_eq!(app.project.styles[0].id, "ink");
    assert_eq!(app.project.styles[0].role.as_deref(), Some("default"));
    assert_eq!(app.message, "Renamed style to \"ink\"");

    app.commit_modal(Modal::RenameStyle { input: "   ".to_string() });
    assert_eq!(app.project.styles[0].id, "ink");
    assert_eq!(app.message, "Style ID must be non-empty and unique");
}

#[test]
fn foreground_and_background_dialogs_set_colors() {
    let mut app = app_on(4, 2);
    app.commit_modal(Modal::SetFg { input: "#102030".to_string() });
    assert_eq!(app.project.styles[0].fg, Color { r: 0x10, g: 0x20, b: 0x30 });
    assert_eq!(app.message, "Foreground set to #102030");

    app.commit_modal(Modal::SetFg { input: "red".to_string() });
    assert_eq!(app.message, "Foreground must be #RRGGBB");

    app.commit_modal(Modal::SetBg { input: "#0a0B0c".to_string() });
    assert_eq!(app.project.styles[0].bg, Some(Color { r: 10, g: 11, b: 12 }));
    assert_eq!(app.message, "Background set to #0A0B0C");

    app.commit_modal(Modal::SetBg { input: " transparent ".to_string() });
    assert_eq!(app.project.styles[0].bg, None);
    assert_eq!(app.message, "Background set to transparent");

    app.commit_modal(Modal::SetBg { input: "none".to_string() });
    assert_eq!(app.message, "Background must be #RRGGBB or transparent");
}

#[test]
fn new_image_dialog_checks_dimensions() {
    let mut app = AppState::welcome(String::new());
    app.commit_modal(Modal::NewImage { input: "0x4".to_string(), target_path: None });
    assert_eq!(app.message, "Enter dimensions as WIDTHxHEIGHT, like 48x16");
    assert!(matches!(app.modal, Some(Modal::NewImage { .. })));
    assert_eq!(app.screen, Screen::Welcome);

    let modal = app.modal.take().expect("dialog");
    drop(modal);
    app.commit_modal(Modal::NewImage { input: " 20x5 ".to_string(), target_path: None });
    assert_eq!(app.screen, Screen::Editor);
    assert_eq!(app.project.asset.name, "untitled");
    assert_eq!(app.project.asset.width, 20);
    assert_eq!(app.message, "Created 20x5 image");
    assert!(app.dirty);
}

#[test]
fn open_and_export_dialogs_ask_for_outside_work() {
    let mut app = app_on(3, 1);
    app.project.frames[0].cells.insert((0, 1), PaintedCell { ch: '*', style_index: 0 });

    match app.commit_modal(Modal::OpenFile { input: " art.tanim.toml ".to_string() }) {
        Request::Open { path } => assert_eq!(path, "art.tanim.toml"),
        other => panic!("expected open, got {other:?}"),
    }
    match app.commit_modal(Modal::ExportText { input: "out.txt".to_string() }) {
        Request::WriteText { path, contents } => {
            assert_eq!(path, "out.txt");
            assert_eq!(contents, " * ");
        },
        other => panic!("expected text export, got {other:?}"),
    }
    app.commit_modal(Modal::ExportText { input: "  ".to_string() });
    assert_eq!(app.message, "Export path cannot be empty");
    app.commit_modal(Modal::OpenFile { input: "".to_string() });
    assert_eq!(app.message, "Path cannot be empty");
}

#[test]
fn finishing_an_open_loads_or_offers_to_create() {
    let mut app = AppState::welcome(String::new());
    app.finish_open("missing.tanim.toml".to_string(), OpenOutcome::Missing);
    assert!(matches!(&app.modal, Some(Modal::NewImage { input, target_path: Some(p) })
        if input == "48x16" && p == "missing.tanim.toml"));
    assert_eq!(app.message, "File does not exist. Enter dimensions to create it.");

    let loaded = LoadedProject { project: Project::new_image("loaded", 5, 2), warnings: Vec::new() };
    app.finish_open("loaded.tanim.toml".to_string(), OpenOutcome::Loaded(loaded));
    assert_eq!(app.screen, Screen::Editor);
    assert_eq!(app.project.asset.name, "loaded");
    assert_eq!(app.file_path.as_deref(), Some("loaded.tanim.toml"));
    assert_eq!(app.message, "Opened file with 0 warning(s)");

    let report = ValidationReport {
        errors: vec![ValidationMessage { location: "asset.width".to_string(), message: "bad".to_string() }],
        warnings: Vec::new(),
    };
    app.finish_open("bad.tanim.toml".to_string(), OpenOutcome::Failed(FormatError::Validation(report)));
    assert_eq!(app.message, "Open failed: validation failed with 1 error(s)\n- asset.width: bad\n");
}

#[test]
fn quit_asks_first_when_unsaved_and_save_quits() {
    let mut app = app_on(4, 2);
    app.handle_key(press(KeyCode::Char('q')));
    assert!(app.should_quit);

    let mut app = AppState::editor(Project::new_image("dirty", 4, 2), Some("d.tanim.toml".to_string()), true, String::new());
    app.handle_key(press(KeyCode::Char('q')));
    assert!(!app.should_quit);
    assert!(matches!(app.modal, Some(Modal::QuitConfirm)));

    let request = app.handle_key(press(KeyCode::Char('s')));
    match request {
        Request::Save { path, quit_after } => {
            assert_eq!(path, "d.tanim.toml");
            assert!(quit_after);
        },
        other => panic!("expected save, got {other:?}"),
    }
    app.finish_save("d.tanim.toml", Ok(2), true);
    assert!(app.should_quit);
    assert!(!app.dirty);
    assert_eq!(app.message, "Saved d.tanim.toml with 2 warning(s)");
}

#[test]
fn tool_menu_keys_pick_tools() {
    let mut app = app_on(4, 2);
    app.modal = Some(Modal::ToolMenu);
    app.handle_key(press(KeyCode::Char('4')));
    assert_eq!(app.tool, Tool::Fill);
    assert!(app.modal.is_none());

    app.modal = Some(Modal::ToolMenu);
    app.handle_key(press(KeyCode::Char('s')));
    assert_eq!(app.tool, Tool::Fill);
    assert_eq!(app.message, "No stamp available");
}

#[test]
fn ctrl_z_and_ctrl_y_undo_and_redo_a_stroke() {
    let mut app = app_on(4, 2);
    app.set_cell_for_stroke(1, 1, Some(PaintedCell { ch: 'o', style_index: 0 }));
    app.finish_stroke();
    let after = app.project.clone();

    app.handle_key(ctrl('z'));
    assert!(app.current_frame().cells.is_empty());
    assert_eq!(app.redo_stack.len(), 1);

    app.handle_key(ctrl('y'));
    assert_eq!(app.project.frames, after.frames);
    assert_eq!(app.undo_stack.len(), 1);
}

#[test]
fn pencil_drag_paints_one_undoable_stroke() {
    let mut app = app_on(4, 2);
    app.areas.canvas_area = ScreenRect { x: 10, y: 10, width: 4, height: 2 };
    app.handle_mouse(click(10, 10));
    app.handle_mouse(MouseEvent { kind: MouseKind::LeftDrag, column: 11, row: 10 });
    app.handle_mouse(MouseEvent { kind: MouseKind::LeftDrag, column: 12, row: 11 });
    app.handle_mouse(MouseEvent { kind: MouseKind::LeftUp, column: 12, row: 11 });

    assert_eq!(app.current_frame().cells.len(), 3);
    assert_eq!(app.current_frame().cells[&(1, 2)].ch, '#');
    assert_eq!(app.undo_stack.len(), 1);

    app.undo();
    assert!(app.current_frame().cells.is_empty());
}

#[test]
fn clicks_open_menus_and_outside_clicks_close_them() {
    let mut app = app_on(4, 2);
    app.areas.tool_button_area = ScreenRect { x: 0, y: 0, width: 6, height: 1 };
    app.areas.modal_area = ScreenRect { x: 20, y: 5, width: 10, height: 8 };

    app.handle_mouse(click(2, 0));
    assert!(matches!(app.modal, Some(Modal::ToolMenu)));
    assert_eq!(app.message, "Choose a tool");

    app.areas.modal_tool_areas.push(ButtonHit { action: Tool::Line, area: ScreenRect { x: 21, y: 6, width: 5, height: 1 } });
    app.handle_mouse(click(22, 6));
    assert_eq!(app.tool, Tool::Line);
    assert!(app.modal.is_none());

    app.handle_mouse(click(2, 0));
    app.handle_mouse(click(0, 30));
    assert!(app.modal.is_none());
    assert_eq!(app.message, "Tool menu closed");
}

#[test]
fn picker_click_asks_for_the_expanded_color() {
    let mut app = app_on(4, 2);
    app.modal = Some(Modal::ColorPicker);
    app.areas.modal_color_areas.push(ButtonHit { action: 7usize, area: ScreenRect { x: 3, y: 3, width: 2, height: 1 } });
    match app.handle_mouse(click(4, 3)) {
        Request::PickColor { index } => assert_eq!(index, 7),
        other => panic!("expected a color pick, got {other:?}"),
    }
    app.pick_expanded_color(Color { r: 1, g: 2, b: 3 });
    assert!(app.modal.is_none());
    assert_eq!(app.message, "Selected #010203");
    assert_eq!(app.project.styles[app.current_style].fg, Color { r: 1, g: 2, b: 3 });
}

#[test]
fn startup_follows_whether_the_path_exists() {
    assert!(matches!(startup_from_path("a.tanim.toml".to_string(), true), Startup::Open(p) if p == "a.tanim.toml"));
    assert!(matches!(startup_from_path("b.tanim.toml".to_string(), false), Startup::CreateAt(p) if p == "b.tanim.toml"));
}

#[test]
fn new_dimensions_parse_within_limits() {
    assert_eq!(parse_new_dimensions("48x16"), Ok((48, 16)));
    assert_eq!(parse_new_dimensions(" 500x300 "), Ok((500, 300)));
    assert!(parse_new_dimensions("501x1").is_err());
    assert!(parse_new_dimensions("500x301").is_err());
    assert!(parse_new_dimensions("0x5").is_err());
    assert!(parse_new_dimensions("5x").is_err());
    assert!(parse_new_dimensions("x5").is_err());
    assert!(parse_new_dimensions("5*5").is_err());
    assert_eq!(
        parse_new_dimensions("abc"),
        Err("expected dimensions as WIDTHxHEIGHT within 500x300 and 150000 total cells".to_string())
    );
}

#[test]
fn generated_ids_skip_taken_names() {
    let mut project = Project::new_image("ids", 2, 2);
    assert_eq!(next_style_id(&project), "style-1");
    assert_eq!(next_frame_id(&project), "frame-2");
    let mut extra = project.styles[0].clone();
    extra.id = "style-1".to_string();
    project.styles.push(extra);
    assert_eq!(next_style_id(&project), "style-2");
    assert_eq!(unique_style_id(&project, "default"), "default-2");
    assert_eq!(unique_style_id(&project, "fresh"), "fresh");
}

#[test]
fn style_dialogs_keep_style_ids_distinct_and_non_blank() {
    let mut app = app_on(4, 2);
    app.commit_modal(Modal::NewStyle { input: "  glow  ".to_string() });
    assert_eq!(app.project.styles.len(), 2);
    assert_eq!(app.project.styles[1].id, "glow");
    assert_eq!(app.current_style, 1);

    app.commit_modal(Modal::RenameStyle { input: "default".to_string() });
    assert_eq!(app.project.styles[1].id, "glow");
    assert_eq!(app.message, "Style ID must be non-empty and unique");

    app.commit_modal(Modal::NewStyle { input: "\t\n".to_string() });
    assert_eq!(app.project.styles.len(), 2);

    app.commit_modal(Modal::RenameStyle { input: " ink ".to_string() });
    assert_eq!(app.project.styles[1].id, "ink");
    let ids: Vec<&str> = app.project.styles.iter().map(|s| s.id.as_str()).collect();
    assert_eq!(ids, vec!["default", "ink"]);
    assert!(ids.iter().all(|id| !id.trim().is_empty()));
}
