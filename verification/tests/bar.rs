use aerowm::bar::{
    click_command, parse_color, plan_bar, text_width, BarConfig, DrawOp, RawBarConfig, Widget,
    WorkspaceCell,
};
use aerowm::canvas::{fill_pixels, fill_rect_pixels, put_rgb_pixel};
use aerowm::ipc::{CompositorSnapshot, IpcCommand, WorkspaceAction, WorkspaceInfo};

#[test]
fn default_widgets_cover_workspaces_and_clock() {
    let cfg = BarConfig::default();
    assert!(cfg.widgets.contains(&Widget::Workspaces));
    assert!(cfg.widgets.contains(&Widget::Clock));
}

#[test]
fn parses_colors() {
    assert_eq!(parse_color("#1a1b26", 0), 0xFF_1A_1B_26);
    assert_eq!(parse_color("notacolor", 42), 42);
}

#[test]
fn parses_widget_names() {
    assert_eq!(Widget::parse("workspaces"), Some(Widget::Workspaces));
    assert_eq!(Widget::parse("clock"), Some(Widget::Clock));
    assert_eq!(Widget::parse("frobnicator"), None);
}

#[test]
fn color_edge_cases_follow_from_str_radix() {
    assert_eq!(parse_color("  #C0CAF5\n", 1), 0xFF_C0_CA_F5);
    assert_eq!(parse_color("##7aa2f7", 1), 0xFF_7A_A2_F7);
    assert_eq!(parse_color("7aa2f7", 1), 0xFF_7A_A2_F7);
    assert_eq!(parse_color("+12345", 1), 0xFF01_2345);
    assert_eq!(parse_color("#12345", 1), 1);
    assert_eq!(parse_color("#1234567", 1), 1);
    assert_eq!(parse_color("#12g456", 1), 1);
    assert_eq!(parse_color("-12345", 1), 1);
    assert_eq!(parse_color("", 7), 7);
    assert_eq!(parse_color("\u{3000}#000000\u{2003}", 7), 0xFF00_0000);
    // The radix parser agrees on the digits this accepts.
    assert_eq!(u32::from_str_radix("+12345", 16), Ok(0x12345));
}

#[test]
fn resolve_applies_defaults_and_clamps() {
    let raw = RawBarConfig {
        height: Some(200),
        widgets: vec!["clock".to_string(), "bogus".to_string()],
        background: Some("#000000".to_string()),
        foreground: Some("junk".to_string()),
        accent: None,
        inactive: None,
    };
    let cfg = BarConfig::resolve(&raw);
    assert_eq!(cfg.height, 64);
    assert_eq!(cfg.widgets, vec![Widget::Clock]);
    assert_eq!(cfg.background, 0xFF00_0000);
    assert_eq!(cfg.foreground, BarConfig::default().foreground);
    assert_eq!(cfg.accent, BarConfig::default().accent);

    let raw = RawBarConfig {
        height: Some(3),
        widgets: vec!["nope".to_string()],
        background: None,
        foreground: None,
        accent: None,
        inactive: None,
    };
    let cfg = BarConfig::resolve(&raw);
    assert_eq!(cfg.height, 16);
    assert_eq!(cfg.widgets, vec![Widget::Workspaces, Widget::Clock]);

    let raw = RawBarConfig {
        height: None,
        widgets: vec![],
        background: None,
        foreground: None,
        accent: None,
        inactive: None,
    };
    assert_eq!(BarConfig::resolve(&raw), BarConfig::default());
}

fn test_snapshot() -> CompositorSnapshot {
    CompositorSnapshot {
        active: 0,
        workspaces: vec![
            WorkspaceInfo {
                name: "1".into(),
                active: true,
                window_count: 2,
                focused_window: Some(1),
            },
            WorkspaceInfo {
                name: "2".into(),
                active: false,
                window_count: 0,
                focused_window: None,
            },
        ],
    }
}

#[test]
fn draws_workspace_cells() {
    let config = BarConfig::default();
    let snap = test_snapshot();
    let plan = plan_bar(&config, &snap, "12:00", 400, 28);
    let cells = plan.cells;
    assert_eq!(cells.len(), 2);
    assert_eq!(cells[0].index, 0);
    // Background is painted first.
    assert_eq!(plan.ops[0], DrawOp::Fill { color: config.background });
}

#[test]
fn bar_plan_geometry() {
    let config = BarConfig::default();
    let mut snap = test_snapshot();
    snap.workspaces[1].window_count = 3;
    let plan = plan_bar(&config, &snap, "12:00", 400, 28);
    assert_eq!(
        plan.cells,
        vec![
            WorkspaceCell { x0: 4, x1: 32, index: 0 },
            WorkspaceCell { x0: 34, x1: 62, index: 1 },
        ]
    );
    assert_eq!(
        plan.ops,
        vec![
            DrawOp::Fill { color: config.background },
            DrawOp::FillRect { x: 4, y: 0, w: 28, h: 28, color: config.accent },
            DrawOp::Text { text: "1".to_string(), x: 15, y: 7, color: 0xFFFF_FFFF },
            DrawOp::Text { text: "2".to_string(), x: 45, y: 7, color: config.foreground },
            DrawOp::FillRect { x: 38, y: 24, w: 20, h: 2, color: config.inactive },
            DrawOp::Text { text: "12:00".to_string(), x: 362, y: 7, color: config.foreground },
        ]
    );
    // A narrow bar drops the cells that do not fit, and the clock.
    let plan = plan_bar(&config, &snap, "12:00", 40, 28);
    assert_eq!(plan.cells.len(), 1);
    assert_eq!(plan.ops.len(), 3);
}

#[test]
fn text_width_counts_glyphs() {
    assert_eq!(text_width("12:00"), 5 * 6);
    assert_eq!(text_width("é"), 6);
}

#[test]
fn click_switches_to_one_based_workspace() {
    let cells = vec![
        WorkspaceCell { x0: 4, x1: 32, index: 0 },
        WorkspaceCell { x0: 34, x1: 62, index: 1 },
    ];
    assert_eq!(
        click_command(&cells, 40),
        Some(IpcCommand::Workspace { action: WorkspaceAction::Switch(2) })
    );
    assert_eq!(
        click_command(&cells, 4),
        Some(IpcCommand::Workspace { action: WorkspaceAction::Switch(1) })
    );
    assert_eq!(click_command(&cells, 32), None);
    assert_eq!(click_command(&cells, 3), None);
}

#[test]
fn canvas_fill_and_rect() {
    let mut buf = vec![0u8; 4 * 4 * 2 + 3];
    fill_pixels(&mut buf, 0xAABBCCDD);
    assert_eq!(&buf[0..4], &[0xDD, 0xCC, 0xBB, 0xAA]);
    assert_eq!(&buf[28..32], &[0xDD, 0xCC, 0xBB, 0xAA]);
    assert_eq!(&buf[32..35], &[0, 0, 0]);

    let mut buf = vec![0u8; 4 * 4 * 2];
    fill_rect_pixels(&mut buf, 4, 2, 1, 1, 2, 5, 0x01020304);
    for p in 0..8 {
        let painted = p == 5 || p == 6;
        let px = &buf[p * 4..p * 4 + 4];
        if painted {
            assert_eq!(px, &[4, 3, 2, 1]);
        } else {
            assert_eq!(px, &[0, 0, 0, 0]);
        }
    }

    let mut buf = vec![0u8; 16];
    put_rgb_pixel(&mut buf, 2, 2, 1, 1, 10, 20, 30);
    assert_eq!(&buf[12..16], &[30, 20, 10, 0xFF]);
    put_rgb_pixel(&mut buf, 2, 2, 2, 0, 10, 20, 30);
    assert_eq!(&buf[0..12], &[0u8; 12]);
}

#[test]
fn clock_text_is_hour_and_minute() {
    assert_eq!(aerowm::bar::clock_text(0, 0), "00:00");
    assert_eq!(aerowm::bar::clock_text(9, 5), "09:05");
    assert_eq!(aerowm::bar::clock_text(12, 0), "12:00");
    assert_eq!(aerowm::bar::clock_text(23, 59), "23:59");
}
