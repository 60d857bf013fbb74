use terminal_animator::ansi::export_ansi;
use terminal_animator::export::{export_plain_text, finish_encoded, project_to_out};
use terminal_animator::model::{Anchor, AssetKind, Color, Overflow, PaintedCell, Project, TextAttr};
use terminal_animator::raw::{RawAsset, RawCell, RawFrame, RawLayout, RawProject, RawRun, RawStyle};
use terminal_animator::unicode::is_valid_v1_character;
use terminal_animator::editor::actions::is_editable;
use terminal_animator::validate::validate_raw_project;

fn asset(name: &str, kind: &str, width: i64, height: i64) -> RawAsset {
    RawAsset {
        name: name.to_string(),
        kind: kind.to_string(),
        width,
        height,
        default_frame_duration_ms: 250,
        loop_animation: true,
    }
}

fn style(id: &str, fg: &str, bg: Option<&str>, attrs: &[&str]) -> RawStyle {
    RawStyle {
        id: id.to_string(),
        fg: fg.to_string(),
        bg: bg.map(|b| b.to_string()),
        attrs: attrs.iter().map(|a| a.to_string()).collect(),
        role: None,
    }
}

fn frame(id: Option<&str>, runs: Vec<RawRun>, cells: Vec<RawCell>) -> RawFrame {
    RawFrame { id: id.map(|i| i.to_string()), duration_ms: None, runs, cells }
}

fn cell(x: i64, y: i64, ch: &str, style: &str) -> RawCell {
    RawCell { x, y, ch: ch.to_string(), style: style.to_string() }
}

fn run(x: i64, y: i64, text: &str, style: &str) -> RawRun {
    RawRun { x, y, text: text.to_string(), style: style.to_string() }
}

/// A small document: a 7x3 image with a star at (3, 0) and a layout to be
/// normalized.
fn minimal() -> RawProject {
    RawProject {
        schema_version: 1,
        asset: asset("tiny-star", "image", 7, 3),
        layout: Some(RawLayout { min_width: None, min_height: None, anchor: None, overflow: None }),
        styles: vec![style("star", "#E0B952", Some("transparent"), &["bold"])],
        frames: vec![frame(Some("frame-1"), vec![], vec![cell(3, 0, "*", "star")])],
    }
}

fn plain_image(name: &str, width: i64, height: i64, frames: Vec<RawFrame>) -> RawProject {
    RawProject {
        schema_version: 1,
        asset: asset(name, "image", width, height),
        layout: None,
        styles: vec![style("plain", "#FFFFFF", None, &[])],
        frames,
    }
}

/// The raw form a reader gets back from the canonical output of `project`.
fn reread(project: &Project) -> RawProject {
    let out = project_to_out(project);
    RawProject {
        schema_version: out.schema_version,
        asset: RawAsset {
            name: out.asset.name.clone(),
            kind: out.asset.kind.clone(),
            width: out.asset.width as i64,
            height: out.asset.height as i64,
            default_frame_duration_ms: out.asset.default_frame_duration_ms as i64,
            loop_animation: out.asset.loop_animation,
        },
        layout: Some(RawLayout {
            min_width: Some(out.layout.min_width as i64),
            min_height: Some(out.layout.min_height as i64),
            anchor: Some(out.layout.anchor.clone()),
            overflow: Some(out.layout.overflow.clone()),
        }),
        styles: out
            .styles
            .iter()
            .map(|s| RawStyle {
                id: s.id.clone(),
                fg: s.fg.clone(),
                bg: Some(s.bg.clone()),
                attrs: s.attrs.clone(),
                role: s.role.clone(),
            })
            .collect(),
        frames: out
            .frames
            .iter()
            .map(|f| RawFrame {
                id: f.id.clone(),
                duration_ms: f.duration_ms.map(|d| d as i64),
                runs: f
                    .runs
                    .iter()
                    .map(|r| RawRun { x: r.x as i64, y: r.y as i64, text: r.text.clone(), style: r.style.clone() })
                    .collect(),
                cells: f
                    .cells
                    .iter()
                    .map(|c| RawCell { x: c.x as i64, y: c.y as i64, ch: c.ch.clone(), style: c.style.clone() })
                    .collect(),
            })
            .collect(),
    }
}

#[test]
fn parses_minimal_image_and_normalizes_layout() {
    let loaded = validate_raw_project(minimal()).expect("valid project");

    assert_eq!(loaded.project.asset.name, "tiny-star");
    assert_eq!(loaded.project.layout.min_width, 7);
    assert_eq!(loaded.project.layout.min_height, 3);
    assert_eq!(loaded.project.layout.anchor, Anchor::Center);
    assert_eq!(loaded.project.first_frame().cells[&(0, 3)].ch, '*');
}

#[test]
fn run_cells_compose_before_explicit_cells() {
    let raw = plain_image(
        "compose",
        4,
        1,
        vec![frame(None, vec![run(0, 0, "abcd", "plain")], vec![cell(1, 0, "Z", "plain")])],
    );

    let loaded = validate_raw_project(raw).expect("valid project");
    assert_eq!(export_plain_text(&loaded.project, 0), "aZcd");
}

#[test]
fn image_requires_exactly_one_frame() {
    let raw = plain_image("bad", 2, 1, vec![frame(None, vec![], vec![]), frame(None, vec![], vec![])]);

    let error = validate_raw_project(raw).expect_err("invalid frame count");
    assert!(error.describe().contains("requires exactly one frame"));
}

#[test]
fn rejects_invalid_colors_and_foreground_transparency() {
    let mut raw = plain_image("bad-color", 2, 1, vec![frame(None, vec![], vec![])]);
    raw.styles = vec![style("plain", "transparent", None, &[])];

    let error = validate_raw_project(raw).expect_err("invalid color");
    assert!(error.describe().contains("foreground transparency"));
}

#[test]
fn rejects_non_v1_characters() {
    assert!(is_valid_v1_character('*'));
    assert!(is_valid_v1_character('█'));
    assert!(!is_valid_v1_character('\n'));
    assert!(!is_valid_v1_character('\u{0301}'));
    assert!(!is_valid_v1_character('😀'));
}

#[test]
fn serializes_and_round_trips_new_image() {
    let mut project = Project::new_image("round-trip", 3, 2);
    project.first_frame_mut().cells.insert((1, 2), PaintedCell { ch: '@', style_index: 0 });

    let loaded = validate_raw_project(reread(&project)).expect("parse serialized");

    assert_eq!(loaded.project, project);
}

#[test]
fn round_trip_keeps_animation_frames_styles_and_runs() {
    let mut project = Project::new_image("loop", 4, 2);
    project.asset.kind = AssetKind::Animation;
    project.styles[0].attrs = vec![TextAttr::Bold, TextAttr::Underline];
    project.styles[0].bg = Some(Color { r: 1, g: 2, b: 3 });
    let mut second = project.frames[0].clone();
    second.id = Some("frame-2".to_string());
    second.duration_ms = 100;
    for x in 0..4 {
        second.cells.insert((1, x), PaintedCell { ch: 'x', style_index: 0 });
    }
    second.cells.insert((0, 0), PaintedCell { ch: ' ', style_index: 0 });
    project.frames.push(second);
    project.layout.anchor = Anchor::BottomRight;
    project.layout.overflow = Overflow::Hide;

    let loaded = validate_raw_project(reread(&project)).expect("valid round trip");

    assert_eq!(loaded.project, project);
}

#[test]
fn canonical_output_writes_runs_for_rows_and_omits_default_duration() {
    let mut project = Project::new_image("runs", 3, 1);
    for x in 0..3 {
        project.first_frame_mut().cells.insert((0, x), PaintedCell { ch: 'a', style_index: 0 });
    }
    let out = project_to_out(&project);

    assert_eq!(out.schema_version, 1);
    assert_eq!(out.asset.kind, "image");
    assert_eq!(out.layout.anchor, "center");
    assert_eq!(out.layout.overflow, "clip");
    assert_eq!(out.styles[0].bg, "transparent");
    assert_eq!(out.frames[0].duration_ms, None);
    let painted: usize = out.frames[0].runs.iter().map(|r| r.text.chars().count()).sum::<usize>()
        + out.frames[0].cells.len();
    assert_eq!(painted, 3);
}

#[test]
fn finish_encoded_ends_with_exactly_one_newline() {
    assert_eq!(finish_encoded("a = 1".to_string()), "a = 1\n");
    assert_eq!(finish_encoded("a = 1\n".to_string()), "a = 1\n");
}

#[test]
fn export_plain_text_pads_transparent_cells_with_spaces() {
    let mut project = Project::new_image("cli-sample", 3, 2);
    project.first_frame_mut().cells.insert((0, 1), PaintedCell { ch: '*', style_index: 0 });

    assert_eq!(export_plain_text(&project, 0), " * \n   ");
}

#[test]
fn hex_colors_parse_in_either_case_and_print_upper() {
    assert_eq!(Color::parse_hex("#e0b952"), Some(Color { r: 0xE0, g: 0xB9, b: 0x52 }));
    assert_eq!(Color::parse_hex("#E0B952"), Some(Color { r: 0xE0, g: 0xB9, b: 0x52 }));
    assert_eq!(Color::parse_hex("E0B952"), None);
    assert_eq!(Color::parse_hex("#E0B95"), None);
    assert_eq!(Color::parse_hex("#G0B952"), None);
    assert_eq!(Color { r: 0xE0, g: 0xB9, b: 0x52 }.to_hex(), "#E0B952");
    let c = Color { r: 7, g: 200, b: 255 };
    assert_eq!(Color::parse_hex(&c.to_hex()), Some(c));
}

#[test]
fn rejects_wrong_schema_version() {
    let mut raw = minimal();
    raw.schema_version = 2;
    let error = validate_raw_project(raw).expect_err("bad schema");
    assert!(error.describe().starts_with("validation failed with 1 error(s)\n"));
}

#[test]
fn rejects_unknown_style_reference_and_out_of_bounds_cell() {
    let raw = plain_image(
        "refs",
        2,
        1,
        vec![frame(None, vec![], vec![cell(0, 0, "a", "missing"), cell(5, 0, "b", "plain")])],
    );
    let error = validate_raw_project(raw).expect_err("bad refs");
    let text = error.describe();
    assert!(text.starts_with("validation failed with 2 error(s)\n"));
}

#[test]
fn rejects_unknown_kind_and_zero_width() {
    let mut raw = plain_image("kinds", 0, 1, vec![frame(None, vec![], vec![])]);
    raw.asset.kind = "video".to_string();
    assert!(validate_raw_project(raw).is_err());
}

#[test]
fn project_helpers_start_blank() {
    let project = Project::new_image("blank", 5, 4);
    assert_eq!(project.asset.kind, AssetKind::Image);
    assert_eq!(project.layout.min_width, 5);
    assert_eq!(project.layout.min_height, 4);
    assert_eq!(project.styles.len(), 1);
    assert_eq!(project.styles[0].id, "default");
    assert_eq!(project.styles[0].fg, Color { r: 238, g: 238, b: 238 });
    assert_eq!(project.frames.len(), 1);
    assert_eq!(project.frames[0].id.as_deref(), Some("frame-1"));
    assert!(project.first_frame().cells.is_empty());
}

#[test]
fn export_ansi_styles_painted_cells_and_resets() {
    let mut project = Project::new_image("ansi", 2, 2);
    project.styles[0].fg = Color { r: 1, g: 2, b: 3 };
    project.styles[0].bg = Some(Color { r: 4, g: 5, b: 6 });
    project.styles[0].attrs = vec![TextAttr::Bold, TextAttr::Reverse];
    project.first_frame_mut().cells.insert((1, 0), PaintedCell { ch: 'Z', style_index: 0 });

    assert_eq!(export_ansi(&project, 0), "  \n\u{1b}[38;2;1;2;3;48;2;4;5;6;1;7mZ\u{1b}[0m ");
    assert_eq!(export_ansi(&project, 9), export_ansi(&project, 0));
}

#[test]
fn loading_reports_fast_frames_layout_empty_frames_and_unused_styles() {
    let mut fast = frame(Some("a"), vec![], vec![cell(0, 0, "x", "used")]);
    fast.duration_ms = Some(40);
    let raw = RawProject {
        schema_version: 1,
        asset: asset("warned", "animation", 3, 2),
        layout: Some(RawLayout { min_width: Some(5), min_height: Some(2), anchor: None, overflow: None }),
        styles: vec![style("used", "#FFFFFF", None, &[]), style("spare", "#000000", None, &[])],
        frames: vec![fast, frame(Some("b"), vec![], vec![])],
    };

    let loaded = validate_raw_project(raw).expect("warnings do not reject a document");
    let texts: Vec<(String, String)> =
        loaded.warnings.iter().map(|w| (w.location.clone(), w.message.clone())).collect();
    assert_eq!(
        texts,
        vec![
            ("frames[0].duration_ms".to_string(), "very fast frame duration below 80 ms".to_string()),
            ("layout.min_width".to_string(), "layout minimum width is larger than asset width".to_string()),
            ("frames".to_string(), "empty animation frame".to_string()),
            ("styles[1]".to_string(), "unused style \"spare\"".to_string()),
        ]
    );
}

#[test]
fn a_clean_document_loads_without_warnings() {
    let loaded = validate_raw_project(minimal()).expect("valid project");
    assert!(loaded.warnings.is_empty());
}

#[test]
fn a_loaded_document_with_a_style_can_be_edited() {
    let loaded = validate_raw_project(minimal()).expect("valid project");
    assert!(is_editable(&loaded.project));
}

#[test]
fn a_document_without_styles_loads_but_has_nothing_to_paint_with() {
    let raw = RawProject {
        schema_version: 1,
        asset: asset("bare", "image", 2, 1),
        layout: None,
        styles: vec![],
        frames: vec![frame(None, vec![], vec![])],
    };
    let loaded = validate_raw_project(raw).expect("styles are optional in the file");
    assert!(!is_editable(&loaded.project));
}

fn error_texts(raw: RawProject) -> Vec<(String, String)> {
    match validate_raw_project(raw) {
        Err(terminal_animator::error::FormatError::Validation(report)) => {
            report.errors.iter().map(|e| (e.location.clone(), e.message.clone())).collect()
        }
        _ => panic!("expected a validation error"),
    }
}

#[test]
fn validation_errors_name_where_and_what() {
    let mut raw = minimal();
    raw.schema_version = 2;
    assert!(error_texts(raw)
        .contains(&("schema_version".to_string(), "unsupported schema version 2; expected 1".to_string())));

    let mut raw = minimal();
    raw.styles[0].fg = "transparent".to_string();
    assert!(error_texts(raw)
        .contains(&("styles[0].fg".to_string(), "foreground transparency is not valid in V1".to_string())));

    let raw = plain_image("edge", 3, 1, vec![frame(None, vec![run(1, 0, "abc", "plain")], vec![])]);
    assert!(error_texts(raw)
        .contains(&("frames[0].runs[0].text".to_string(), "run text extends outside the canvas".to_string())));

    let raw = plain_image("two", 2, 1, vec![frame(None, vec![], vec![]), frame(None, vec![], vec![])]);
    assert!(error_texts(raw)
        .contains(&("frames".to_string(), "kind = \"image\" requires exactly one frame".to_string())));
}

#[test]
fn white_space_matches_the_standard_library_on_every_character() {
    for n in 0..=0x10FFFFu32 {
        if let Some(c) = char::from_u32(n) {
            assert_eq!(terminal_animator::text::char_is_whitespace(c), c.is_whitespace(), "{n:#x}");
        }
    }
}

#[test]
fn a_loaded_document_keeps_every_cell_on_the_canvas_with_known_styles() {
    let raw = RawProject {
        schema_version: 1,
        asset: asset("edges", "animation", 4, 2),
        layout: None,
        styles: vec![style("ink", "#FFFFFF", None, &[]), style("glow", "#00FF00", None, &["bold"])],
        frames: vec![
            frame(Some("a"), vec![run(1, 1, "xyz", "glow")], vec![cell(0, 0, "#", "ink")]),
            frame(Some("b"), vec![run(0, 0, "abcd", "ink")], vec![cell(3, 1, "@", "glow")]),
        ],
    };
    let loaded = validate_raw_project(raw).expect("valid project");
    let p = &loaded.project;
    assert_eq!(p.frames.len(), 2);
    assert_ne!(p.styles[0].id, p.styles[1].id);
    assert_ne!(p.frames[0].id, p.frames[1].id);
    for f in &p.frames {
        assert!(f.duration_ms > 0);
        for (&(y, x), c) in &f.cells {
            assert!(x < p.asset.width && y < p.asset.height);
            assert!(c.style_index < p.styles.len());
            assert!(is_valid_v1_character(c.ch));
        }
    }
    assert_eq!(p.frames[0].cells.get(&(1, 3)), Some(&PaintedCell { ch: 'z', style_index: 1 }));
    assert_eq!(p.frames[1].cells.get(&(0, 3)), Some(&PaintedCell { ch: 'd', style_index: 0 }));
}

#[test]
fn frame_id_and_duration_errors_name_the_frame() {
    let mut raw = plain_image("ids", 2, 1, vec![frame(Some("a"), vec![], vec![]), frame(Some("a"), vec![], vec![])]);
    raw.asset.kind = "animation".to_string();
    raw.frames.push(frame(Some("  "), vec![], vec![]));
    raw.frames[0].duration_ms = Some(0);
    let errors = error_texts(raw);
    assert!(errors.contains(&("frames[1].id".to_string(), "duplicate frame ID".to_string())));
    assert!(errors.contains(&("frames[2].id".to_string(), "frame ID cannot be empty".to_string())));
    assert!(errors.contains(&("frames[0].duration_ms".to_string(), "must be a positive integer".to_string())));
}

#[test]
fn too_many_runs_in_a_frame_are_reported_with_the_count() {
    let runs: Vec<RawRun> = (0..10_001).map(|_| run(0, 0, "a", "plain")).collect();
    let raw = plain_image("busy", 2, 1, vec![frame(None, runs, vec![])]);
    assert!(error_texts(raw)
        .contains(&("frames[0].runs".to_string(), "run count 10001 exceeds maximum 10000".to_string())));
}

#[test]
fn run_and_cell_errors_name_the_item_and_the_problem() {
    let frames = vec![frame(
        None,
        vec![run(-1, 0, "a", "plain"), run(0, 0, "b", "nope"), run(0, 0, "a\u{7}", "plain")],
        vec![cell(9, 0, "x", "plain"), cell(0, 0, "", "plain"), cell(0, 0, "xy", "plain"), cell(1, 0, "\u{7}", "plain")],
    )];
    let errors = error_texts(plain_image("items", 3, 1, frames));
    assert!(errors.contains(&("frames[0].runs[0]".to_string(), "coordinate cannot be negative".to_string())));
    assert!(errors.contains(&("frames[0].runs[1].style".to_string(), "unknown style reference \"nope\"".to_string())));
    assert!(errors.contains(&("frames[0].runs[2].text[1]".to_string(), "invalid V1 terminal character '\\u{7}'".to_string())));
    assert!(errors.contains(&("frames[0].cells[0]".to_string(), "coordinate is outside the canvas".to_string())));
    assert!(errors.contains(&("frames[0].cells[1].ch".to_string(), "cell character cannot be empty".to_string())));
    assert!(errors
        .contains(&("frames[0].cells[2].ch".to_string(), "cell character must contain exactly one Unicode scalar value".to_string())));
    assert!(errors.contains(&("frames[0].cells[3].ch".to_string(), "invalid V1 terminal character '\\u{7}'".to_string())));
}

#[test]
fn a_frame_writing_more_cells_than_allowed_is_reported() {
    let runs: Vec<RawRun> = (0..10_000).map(|_| run(0, 0, "ab", "plain")).collect();
    let cells: Vec<RawCell> = (0..130_001).map(|_| cell(1, 0, "c", "plain")).collect();
    let raw = plain_image("heavy", 2, 1, vec![frame(None, runs, cells)]);
    let errors = error_texts(raw);
    assert_eq!(errors, vec![("frames[0]".to_string(), "expanded writes per frame exceeds maximum 150000".to_string())]);
}

#[test]
fn asset_size_and_duration_errors_say_what_is_wrong() {
    let mut raw = minimal();
    raw.asset.width = 501;
    raw.asset.height = 0;
    raw.asset.default_frame_duration_ms = -5;
    let errors = error_texts(raw);
    assert!(errors.contains(&("asset.width".to_string(), "exceeds maximum 500".to_string())));
    assert!(errors.contains(&("asset.height".to_string(), "must be a positive integer".to_string())));
    assert!(errors.contains(&("asset.default_frame_duration_ms".to_string(), "must be a positive integer".to_string())));

    let mut raw = minimal();
    raw.asset.width = 70_000;
    assert!(error_texts(raw).contains(&("asset.width".to_string(), "is too large".to_string())));
}

#[test]
fn style_errors_name_the_style_and_the_problem() {
    let mut raw = minimal();
    raw.styles = vec![
        style("star", "#E0B952", None, &[]),
        style("star", "#12345", Some("blue"), &["bold", "sparkle"]),
        style("  ", "#FFFFFF", None, &[]),
    ];
    let errors = error_texts(raw);
    assert!(errors.contains(&("styles[1].id".to_string(), "duplicate style ID".to_string())));
    assert!(errors.contains(&("styles[1].fg".to_string(), "invalid #RRGGBB color".to_string())));
    assert!(errors.contains(&("styles[1].bg".to_string(), "invalid background color".to_string())));
    assert!(errors.contains(&("styles[1].attrs".to_string(), "invalid style attribute \"sparkle\"".to_string())));
    assert!(errors.contains(&("styles[2].id".to_string(), "style ID cannot be empty".to_string())));
}

#[test]
fn layout_errors_name_the_field() {
    let mut raw = minimal();
    raw.layout = Some(RawLayout {
        min_width: Some(0),
        min_height: Some(70_000),
        anchor: Some("middle".to_string()),
        overflow: Some("wrap".to_string()),
    });
    let errors = error_texts(raw);
    assert!(errors.contains(&("layout.min_width".to_string(), "must be a positive integer".to_string())));
    assert!(errors.contains(&("layout.min_height".to_string(), "is too large".to_string())));
    assert!(errors.contains(&("layout.anchor".to_string(), "invalid anchor value".to_string())));
    assert!(errors.contains(&("layout.overflow".to_string(), "invalid overflow value".to_string())));
}
