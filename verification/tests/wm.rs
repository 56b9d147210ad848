use aerowm::geometry::Rect;
use aerowm::grab::{corner_from, resize_fits, resize_from_corner, GrabCorner, MIN_FLOAT_H, MIN_FLOAT_W};
use aerowm::id::{IdSource, WindowId};
use aerowm::layout::LayoutSpec;
use aerowm::rules::WindowRules;
use aerowm::session::{AppId, PendingPlacement, SessionState, WindowEntry, WorkspaceSnapshot, SESSION_VERSION};
use aerowm::geometry::Point;
use aerowm::wm::{usable_area, Remap, ScratchpadOutcome, SwitchOutcome, WmState, NUM_WORKSPACES};

fn fresh_ids(n: usize) -> Vec<WindowId> {
    let mut ids = IdSource::new();
    (0..n).map(|_| WindowId::new(&mut ids)).collect()
}

#[test]
fn fresh_state_has_four_named_workspaces() {
    let s = WmState::new();
    assert_eq!(s.workspaces.len(), NUM_WORKSPACES);
    let names: Vec<&str> = s.workspaces.iter().map(|w| w.name_str()).collect();
    assert_eq!(names, vec!["1", "2", "3", "4"]);
    assert_eq!(s.active_ws, 0);
    let snap = s.snapshot();
    assert_eq!(snap.active, 0);
    assert_eq!(snap.workspaces.len(), 4);
    assert!(snap.workspaces[0].active);
    assert!(!snap.workspaces[1].active);
    assert_eq!(snap.workspaces[2].name, "3");
    assert_eq!(snap.workspaces[0].focused_window, None);
}

#[test]
fn switching_workspaces() {
    let mut s = WmState::new();
    assert_eq!(s.switch_workspace(9), SwitchOutcome::OutOfRange);
    assert_eq!(s.switch_workspace(0), SwitchOutcome::AlreadyActive);
    assert_eq!(s.switch_workspace(2), SwitchOutcome::Switched);
    assert_eq!(s.active_ws, 2);
    s.next_workspace();
    assert_eq!(s.active_ws, 3);
    s.next_workspace();
    assert_eq!(s.active_ws, 0);
    s.prev_workspace();
    assert_eq!(s.active_ws, 3);
}

#[test]
fn snapshot_reports_counts_and_focus() {
    let ids = fresh_ids(2);
    let mut s = WmState::new();
    s.workspaces[0].add_window(ids[0]);
    s.workspaces[0].add_window(ids[1]);
    let snap = s.snapshot();
    assert_eq!(snap.workspaces[0].window_count, 2);
    assert_eq!(snap.workspaces[0].focused_window, Some(ids[1].as_usize()));
}

#[test]
fn forget_window_cleans_everything() {
    let ids = fresh_ids(2);
    let mut s = WmState::new();
    s.workspaces[0].add_window(ids[0]);
    s.workspaces[1].add_window(ids[0]);
    s.workspaces[0].add_window(ids[1]);
    s.float_geo.insert(ids[0].as_usize(), Rect::new(1, 2, 3, 4));
    s.forget_window(ids[0]);
    assert_eq!(s.workspaces[0].get_windows(), &[ids[1]]);
    assert!(s.workspaces[1].get_windows().is_empty());
    assert!(s.float_geo.is_empty());
}

#[test]
fn toggle_floating_pins_and_unpins_geometry() {
    let ids = fresh_ids(1);
    let mut s = WmState::new();
    s.workspaces[0].add_window(ids[0]);
    let g = Rect::new(10, 20, 300, 400);
    assert!(s.toggle_floating(ids[0], Some(g)));
    assert!(s.workspaces[0].is_floating(ids[0]));
    assert_eq!(s.float_geo.get(&ids[0].as_usize()), Some(&g));
    assert!(!s.toggle_floating(ids[0], Some(g)));
    assert!(!s.workspaces[0].is_floating(ids[0]));
    assert!(s.float_geo.is_empty());
}

#[test]
fn float_window_requires_managed_and_tiled() {
    let ids = fresh_ids(1);
    let mut s = WmState::new();
    s.workspaces[0].add_window(ids[0]);
    assert!(!s.float_window(ids[0], false, Some(Rect::new(0, 0, 1, 1))));
    assert!(!s.workspaces[0].is_floating(ids[0]));
    assert!(s.float_window(ids[0], true, None));
    assert!(s.workspaces[0].is_floating(ids[0]));
    assert!(!s.float_window(ids[0], true, Some(Rect::new(0, 0, 1, 1))));
    assert!(s.float_geo.is_empty());
}

#[test]
fn scratchpad_hides_and_shows() {
    let ids = fresh_ids(2);
    let mut s = WmState::new();
    assert_eq!(s.toggle_scratchpad(true, None), ScratchpadOutcome::Nothing);
    s.scratchpad.push(ids[0]);
    s.workspaces[0].add_window(ids[1]);
    // The focused window is not a scratchpad window: show the last one.
    let g = Rect::new(5, 5, 200, 100);
    assert_eq!(s.toggle_scratchpad(true, Some(g)), ScratchpadOutcome::Shown(ids[0]));
    assert_eq!(s.workspaces[0].get_windows(), &[ids[1], ids[0]]);
    assert_eq!(s.workspaces[0].get_focused(), Some(ids[0]));
    assert!(s.workspaces[0].is_floating(ids[0]));
    assert_eq!(s.float_geo.get(&ids[0].as_usize()), Some(&g));
    // Now it is focused: hide it again.
    assert_eq!(s.toggle_scratchpad(true, None), ScratchpadOutcome::Hidden(ids[0]));
    assert_eq!(s.workspaces[0].get_windows(), &[ids[1]]);
    assert_eq!(s.scratchpad, vec![ids[0]]);
}

#[test]
fn window_rules_route_and_float() {
    let ids = fresh_ids(3);
    let mut s = WmState::new();
    s.workspaces[0].add_window(ids[0]);
    let rules = WindowRules { floating: None, workspace: Some(2), scratchpad: None };
    let out = s.apply_window_rules(ids[0], rules, true, None);
    assert_eq!(out.ignored_workspace, None);
    assert!(!out.hidden);
    assert!(s.workspaces[0].get_windows().is_empty());
    assert_eq!(s.workspaces[1].get_windows(), &[ids[0]]);

    // Out-of-range workspaces are ignored.
    let rules = WindowRules { floating: None, workspace: Some(9), scratchpad: None };
    let out = s.apply_window_rules(ids[0], rules, true, None);
    assert_eq!(out.ignored_workspace, Some(9));
    assert_eq!(s.workspaces[1].get_windows(), &[ids[0]]);

    // Floating on the active workspace pins the current geometry.
    s.workspaces[0].add_window(ids[1]);
    let g = Rect::new(1, 1, 50, 50);
    let rules = WindowRules { floating: Some(true), workspace: None, scratchpad: None };
    s.apply_window_rules(ids[1], rules, true, Some(g));
    assert!(s.workspaces[0].is_floating(ids[1]));
    assert_eq!(s.float_geo.get(&ids[1].as_usize()), Some(&g));

    // Scratchpad rules park the window.
    s.workspaces[0].add_window(ids[2]);
    let rules = WindowRules { floating: Some(true), workspace: None, scratchpad: Some(true) };
    let out = s.apply_window_rules(ids[2], rules, true, Some(g));
    assert!(out.hidden);
    assert_eq!(s.scratchpad, vec![ids[2]]);
    assert!(!s.workspaces[0].get_windows().contains(&ids[2]));
    assert_eq!(s.float_geo.get(&ids[2].as_usize()), None);
}

fn restored_session() -> SessionState {
    SessionState {
        version: SESSION_VERSION,
        active_workspace: 1,
        workspaces: vec![
            WorkspaceSnapshot {
                name: "code".into(),
                layout: LayoutSpec::Columns,
                windows: vec![WindowEntry {
                    app: AppId::wayland("kitty".to_string(), None),
                    floating: true,
                    geo: Some(Rect::new(10, 20, 300, 400)),
                    focused: true,
                }],
            },
            WorkspaceSnapshot { name: "web".into(), layout: LayoutSpec::Max, windows: vec![] },
        ],
    }
}

#[test]
fn restore_rebuilds_layouts_and_pending() {
    let mut s = WmState::new();
    let pending = s.restore_session(&restored_session());
    assert_eq!(pending, 1);
    assert_eq!(s.active_ws, 1);
    assert_eq!(s.workspaces.len(), 2);
    assert_eq!(s.workspaces[0].name_str(), "code");
    assert_eq!(s.workspaces[0].layout_spec(), LayoutSpec::Columns);
    assert_eq!(s.workspaces[1].layout_spec(), LayoutSpec::Max);
    assert_eq!(s.pending_placements.len(), 1);
    assert_eq!(s.pending_placements[0].workspace, 0);
    assert!(s.pending_placements[0].focused);
}

#[test]
fn pending_placement_reinserts_window() {
    let ids = fresh_ids(3);
    let mut s = WmState::new();
    s.restore_session(&restored_session());
    s.workspaces[1].add_window(ids[0]);
    let kitty = AppId::wayland("kitty".to_string(), Some("t".into()));
    let out = s.apply_pending_placement(ids[0], &kitty, None).unwrap();
    assert_eq!(out.workspace, 0);
    assert!(out.floating);
    assert!(!out.on_active);
    assert!(s.workspaces[1].get_windows().is_empty());
    assert_eq!(s.workspaces[0].get_windows(), &[ids[0]]);
    assert!(s.workspaces[0].is_floating(ids[0]));
    assert_eq!(s.workspaces[0].get_focused(), Some(ids[0]));
    assert_eq!(s.float_geo.get(&ids[0].as_usize()), Some(&Rect::new(10, 20, 300, 400)));
    assert!(s.pending_placements.is_empty());
    // Nothing left to match.
    assert_eq!(s.apply_pending_placement(ids[1], &kitty, None), None);

    // On the active workspace an unfocused entry restores the previous focus.
    s.pending_placements.push(PendingPlacement {
        app: AppId::wayland("term".to_string(), None),
        workspace: 7,
        position: 0,
        floating: false,
        geo: None,
        focused: false,
    });
    s.workspaces[1].add_window(ids[1]);
    s.workspaces[1].add_window(ids[2]);
    let out = s
        .apply_pending_placement(ids[2], &AppId::wayland("term".to_string(), None), Some(ids[1]))
        .unwrap();
    assert_eq!(out.workspace, 1);
    assert!(out.on_active);
    assert_eq!(s.workspaces[1].get_windows(), &[ids[2], ids[1]]);
    assert_eq!(s.workspaces[1].get_focused(), Some(ids[1]));
}

#[test]
fn build_then_restore_roundtrips() {
    let ids = fresh_ids(3);
    let mut s = WmState::new();
    s.workspaces[0].add_window(ids[0]);
    s.workspaces[0].add_window(ids[1]);
    s.workspaces[2].add_window(ids[2]);
    s.workspaces[0].set_floating(ids[0], true);
    s.float_geo.insert(ids[0].as_usize(), Rect::new(1, 2, 3, 4));
    s.switch_workspace(2);
    // ids[1] has no usable identity and is left out.
    let idents = vec![
        (ids[0], AppId::wayland("a".to_string(), None)),
        (ids[2], AppId::x11("B".to_string(), Some("t".into()))),
    ];
    let session = s.build_session(&idents);
    assert_eq!(session.version, SESSION_VERSION);
    assert_eq!(session.active_workspace, 2);
    assert_eq!(session.workspaces[0].windows.len(), 1);
    assert!(session.workspaces[0].windows[0].floating);
    assert_eq!(session.workspaces[0].windows[0].geo, Some(Rect::new(1, 2, 3, 4)));
    assert!(!session.workspaces[0].windows[0].focused);
    assert!(session.workspaces[2].windows[0].focused);
    let session = session.validate().unwrap();

    let mut back = WmState::new();
    back.restore_session(&session);
    assert_eq!(back.active_ws, 2);
    let names: Vec<&str> = back.workspaces.iter().map(|w| w.name_str()).collect();
    assert_eq!(names, vec!["1", "2", "3", "4"]);
    assert_eq!(back.pending_placements.len(), 2);
    assert_eq!(back.pending_placements[1].workspace, 2);
}

#[test]
fn resize_from_each_corner() {
    let start = Rect::new(100, 100, 400, 300);
    assert_eq!(
        resize_from_corner(GrabCorner::BottomRight, start, 50, -20),
        Rect::new(100, 100, 450, 280)
    );
    assert_eq!(
        resize_from_corner(GrabCorner::TopLeft, start, -10, 1000),
        Rect::new(90, 400 - MIN_FLOAT_H, 410, MIN_FLOAT_H as u32)
    );
    assert_eq!(
        resize_from_corner(GrabCorner::TopRight, start, -1000, 10),
        Rect::new(100, 110, MIN_FLOAT_W as u32, 290)
    );
    assert_eq!(
        resize_from_corner(GrabCorner::BottomLeft, start, 30, 5),
        Rect::new(130, 100, 370, 305)
    );
    assert_eq!(corner_from(true, false), GrabCorner::TopRight);
    assert_eq!(corner_from(false, true), GrabCorner::BottomLeft);
}

#[test]
fn remap_plan_keeps_floating_geometry() {
    let ids = fresh_ids(3);
    let mut s = WmState::new();
    for id in &ids {
        s.workspaces[0].add_window(*id);
    }
    let g = Rect::new(50, 60, 200, 100);
    assert!(s.toggle_floating(ids[1], Some(g)));
    s.workspaces[0].set_floating(ids[2], true);
    let plan = s.remap_plan();
    assert_eq!(
        plan,
        vec![
            Remap::Tiled { id: ids[0] },
            Remap::Floating { id: ids[1], at: Point { x: 50, y: 60 }, pinned: Some(g) },
            Remap::Floating { id: ids[2], at: Point { x: 0, y: 0 }, pinned: None },
        ]
    );
    s.switch_workspace(1);
    assert!(s.remap_plan().is_empty());
}

#[test]
fn usable_area_moves_zone_and_clamps() {
    let r = usable_area(Point { x: 1920, y: 0 }, 0, 28, 1280, 692);
    assert_eq!(r, Rect::new(1920, 28, 1280, 692));
    let r = usable_area(Point { x: 0, y: 0 }, 5, 5, -3, -1);
    assert_eq!(r, Rect::new(5, 5, 0, 0));
}

#[test]
fn grab_target_focuses_pinned_windows_only() {
    let ids = fresh_ids(2);
    let mut s = WmState::new();
    s.workspaces[0].add_window(ids[0]);
    s.workspaces[0].add_window(ids[1]);
    assert_eq!(s.workspaces[0].get_focused(), Some(ids[1]));
    // Not pinned: no grab, focus untouched.
    assert_eq!(s.grab_target(ids[0]), None);
    assert_eq!(s.workspaces[0].get_focused(), Some(ids[1]));
    let g = Rect::new(5, 6, 300, 200);
    assert!(s.float_window(ids[0], true, Some(g)));
    assert_eq!(s.grab_target(ids[0]), Some(g));
    assert_eq!(s.workspaces[0].get_focused(), Some(ids[0]));
}

#[test]
fn resize_fits_guards_overflow() {
    let start = Rect::new(100, 100, 400, 300);
    assert!(resize_fits(GrabCorner::TopLeft, start, -50, -50));
    assert!(resize_fits(GrabCorner::BottomRight, start, 1000, 1000));
    assert!(!resize_fits(GrabCorner::BottomRight, start, i32::MAX, 0));
    assert!(!resize_fits(GrabCorner::TopLeft, start, i32::MIN, 0));
    let huge = Rect::new(i32::MAX - 10, 0, 100, 100);
    assert!(!resize_fits(GrabCorner::TopRight, huge, 0, 0));
}

#[test]
fn dump_empty_state_roundtrips() {
    let state = WmState::new();
    let session = state.build_session(&vec![]);
    assert_eq!(session.workspaces.len(), state.workspaces.len());
    assert!(session.workspaces.iter().all(|w| w.windows.is_empty()));
    // What is written is what is read back.
    let session = session.validate().expect("restore");

    let mut restored = WmState::new();
    // scribble to prove restore overwrites
    restored.switch_workspace(3);
    assert_eq!(restored.active_ws, 3);
    let pending = restored.restore_session(&session);
    assert_eq!(pending, 0);
    assert_eq!(restored.active_ws, 0);
    assert_eq!(restored.workspaces.len(), state.workspaces.len());
    assert!(restored.pending_placements.is_empty());
}

/// What a test can observe of a state.
fn observe(s: &WmState) -> (usize, Vec<(Vec<WindowId>, Option<WindowId>, Vec<bool>)>, Vec<WindowId>, Vec<(usize, Rect)>) {
    let ws = s
        .workspaces
        .iter()
        .map(|w| {
            let stack = w.get_windows().to_vec();
            let floating = stack.iter().map(|id| w.is_floating(*id)).collect();
            (stack, w.get_focused(), floating)
        })
        .collect();
    let mut geo: Vec<(usize, Rect)> = s.float_geo.iter().map(|(k, v)| (*k, *v)).collect();
    geo.sort_by_key(|(k, _)| *k);
    (s.active_ws, ws, s.scratchpad.clone(), geo)
}

#[test]
fn window_rules_twice_change_nothing() {
    let ids = fresh_ids(3);
    let cases = [
        (WindowRules { floating: Some(true), workspace: Some(3), scratchpad: None }, Some(Rect::new(3, 4, 50, 60))),
        (WindowRules { floating: Some(true), workspace: None, scratchpad: None }, Some(Rect::new(3, 4, 50, 60))),
        (WindowRules { floating: Some(true), workspace: None, scratchpad: Some(true) }, None),
        (WindowRules { floating: None, workspace: Some(1), scratchpad: None }, None),
    ];
    for (rules, rect) in cases {
        let mut s = WmState::new();
        s.workspaces[0].add_window(ids[0]);
        s.workspaces[0].add_window(ids[1]);
        s.workspaces[2].add_window(ids[2]);
        s.apply_window_rules(ids[1], rules, true, rect);
        let once = observe(&s);
        s.apply_window_rules(ids[1], rules, true, rect);
        assert_eq!(observe(&s), once);
    }
}

#[test]
fn snapshot_counts_tiled_windows_only() {
    let ids = fresh_ids(2);
    let mut s = WmState::new();
    s.workspaces[0].add_window(ids[0]);
    s.workspaces[1].add_window(ids[1]);
    s.workspaces[1].set_floating(ids[1], true);
    let snap = s.snapshot();
    assert_eq!(snap.workspaces[0].window_count, 1);
    assert_eq!(snap.workspaces[1].window_count, 0);
    assert_eq!(snap.workspaces[1].focused_window, Some(ids[1].as_usize()));
}

#[test]
fn move_pinned_keeps_size() {
    let ids = fresh_ids(2);
    let mut s = WmState::new();
    s.float_geo.insert(ids[0].as_usize(), Rect::new(1, 2, 300, 200));
    assert_eq!(s.move_pinned(ids[0], 40, -5), Some(Rect::new(40, -5, 300, 200)));
    assert_eq!(s.float_geo.get(&ids[0].as_usize()), Some(&Rect::new(40, -5, 300, 200)));
    assert_eq!(s.move_pinned(ids[1], 7, 7), None);
    assert_eq!(s.float_geo.len(), 1);
}
