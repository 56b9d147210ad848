use aerowm::geometry::Rect;
use aerowm::layout::LayoutSpec;
use aerowm::session::{
    wayland_identity, x11_identity, consume_placement, AppId, AppKind, PendingPlacement, SessionError, SessionState, WindowEntry,
    WorkspaceSnapshot, SESSION_VERSION,
};

fn sample() -> SessionState {
    SessionState {
        version: SESSION_VERSION,
        active_workspace: 1,
        workspaces: vec![
            WorkspaceSnapshot {
                name: "1".into(),
                layout: LayoutSpec::MonadTall {
                    master_ratio_bits: 0.6f32.to_bits(),
                    master_count: 1,
                },
                windows: vec![WindowEntry {
                    app: AppId::wayland("kitty".to_string(), Some("shell".into())),
                    floating: false,
                    geo: None,
                    focused: true,
                }],
            },
            WorkspaceSnapshot {
                name: "2".into(),
                layout: LayoutSpec::Columns,
                windows: vec![WindowEntry {
                    app: AppId::x11("Gimp".to_string(), None),
                    floating: true,
                    geo: Some(Rect::new(100, 100, 800, 600)),
                    focused: false,
                }],
            },
        ],
    }
}

#[test]
fn rejects_bad_versions_and_empty() {
    let mut bad = sample();
    bad.version = 999;
    assert!(matches!(
        bad.validate(),
        Err(SessionError::UnsupportedVersion(999))
    ));

    let empty = SessionState {
        version: SESSION_VERSION,
        active_workspace: 0,
        workspaces: vec![],
    };
    assert!(matches!(empty.validate(), Err(SessionError::Empty)));
    assert_eq!(sample().validate(), Ok(sample()));
}

#[test]
fn clamps_active_workspace() {
    let mut state = sample();
    state.active_workspace = 99;
    let back = state.validate().unwrap();
    assert_eq!(back.active_workspace, 0);
}

#[test]
fn pending_placements_preserve_order() {
    let pending = sample().pending_placements();
    assert_eq!(pending.len(), 2);
    assert_eq!(pending[0].workspace, 0);
    assert_eq!(pending[0].position, 0);
    assert!(pending[0].focused);
    assert!(!pending[0].floating);
    assert_eq!(pending[1].workspace, 1);
    assert!(pending[1].floating);
    assert_eq!(pending[1].geo, Some(Rect::new(100, 100, 800, 600)));
}

#[test]
fn consume_placement_matches_in_order() {
    let mk = |id: &str| PendingPlacement {
        app: AppId::wayland(id.to_string(), None),
        workspace: 0,
        position: 0,
        floating: false,
        geo: None,
        focused: false,
    };
    let mut pending = vec![mk("a"), mk("b"), mk("a")];
    let first = consume_placement(&mut pending, &AppId::wayland("a".to_string(), None)).unwrap();
    assert_eq!(first.app.id, "a");
    assert_eq!(pending.len(), 2);
    // same-kind+id required: X11 class "a" must not match Wayland "a"
    let x11 = AppId {
        kind: AppKind::X11,
        id: "a".into(),
        title: None,
    };
    assert!(consume_placement(&mut pending, &x11).is_none());
    assert_eq!(pending.len(), 2);
    // second Wayland "a" still queued behind "b"
    let second = consume_placement(&mut pending, &AppId::wayland("a".to_string(), None)).unwrap();
    assert_eq!(pending.len(), 1);
    assert_eq!(pending[0].app.id, "b");
    let _ = second;
}

#[test]
fn placements_number_positions_per_workspace() {
    let mut s = sample();
    s.workspaces[0].windows.push(WindowEntry {
        app: AppId::wayland("code".to_string(), None),
        floating: false,
        geo: None,
        focused: false,
    });
    let pending = s.pending_placements();
    let seen: Vec<(usize, usize, String)> = pending
        .iter()
        .map(|p| (p.workspace, p.position, p.app.id.clone()))
        .collect();
    assert_eq!(
        seen,
        vec![
            (0, 0, "kitty".to_string()),
            (0, 1, "code".to_string()),
            (1, 0, "Gimp".to_string()),
        ]
    );
    // Titles do not take part in matching.
    let mut pending = pending;
    let hit = consume_placement(&mut pending, &AppId::wayland("kitty".to_string(), Some("other".into())));
    assert_eq!(hit.map(|p| p.position), Some(0));
}

#[test]
fn window_identities() {
    assert_eq!(
        wayland_identity(Some("kitty".to_string()), Some("shell".to_string())),
        Some(AppId::wayland("kitty".to_string(), Some("shell".to_string())))
    );
    assert_eq!(wayland_identity(Some(String::new()), None), None);
    assert_eq!(wayland_identity(None, Some("t".to_string())), None);
    assert_eq!(
        x11_identity("Gimp".to_string(), "gimp".to_string(), String::new()),
        Some(AppId::x11("Gimp".to_string(), None))
    );
    assert_eq!(
        x11_identity(String::new(), "xterm".to_string(), "bash".to_string()),
        Some(AppId::x11("xterm".to_string(), Some("bash".to_string())))
    );
    assert_eq!(x11_identity(String::new(), String::new(), "t".to_string()), None);
}
