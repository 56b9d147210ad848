use aerowm::geometry::Rect;
use aerowm::id::{IdSource, WindowId};
use aerowm::layout::LayoutSpec;
use aerowm::layouts::Columns;
use aerowm::workspace::Workspace;

#[test]
fn test_add_remove_and_focus() {
    let mut ids = IdSource::new();
    let mut ws = Workspace::new("1");
    let w1 = WindowId::new(&mut ids);
    let w2 = WindowId::new(&mut ids);

    assert_eq!(ws.get_focused(), None);

    ws.add_window(w1);
    assert_eq!(ws.get_focused(), Some(w1));

    ws.add_window(w2);
    assert_eq!(ws.get_focused(), Some(w2));

    ws.remove_window(w1);
    assert_eq!(ws.get_focused(), Some(w2));

    ws.remove_window(w2);
    assert_eq!(ws.get_focused(), None);
}

#[test]
fn test_focus_navigation() {
    let mut ids = IdSource::new();
    let mut ws = Workspace::new("1");
    let w1 = WindowId::new(&mut ids);
    let w2 = WindowId::new(&mut ids);
    let w3 = WindowId::new(&mut ids);

    ws.add_window(w1);
    ws.add_window(w2);
    ws.add_window(w3);

    // newly added w3 is focused
    assert_eq!(ws.get_focused(), Some(w3));

    ws.focus_next(); // wrap around to w1
    assert_eq!(ws.get_focused(), Some(w1));

    ws.focus_prev(); // wrap back to w3
    assert_eq!(ws.get_focused(), Some(w3));
}

#[test]
fn test_floating_excluded_from_layout() {
    let mut ids = IdSource::new();
    let mut ws = Workspace::new("1");
    let w1 = WindowId::new(&mut ids);
    let w2 = WindowId::new(&mut ids);

    ws.add_window(w1);
    ws.add_window(w2);
    assert!(!ws.is_floating(w1));

    assert!(ws.toggle_floating(w1));
    assert!(ws.is_floating(w1));

    let area = Rect::new(0, 0, 1920, 1080);
    let layout = Columns;
    let placed = ws.apply_layout(&layout, area);
    // Only the tiled window is placed, floating keeps user geometry.
    assert_eq!(placed.len(), 1);
    assert_eq!(placed[0].0, w2);

    // Back to tiled: both placed again.
    assert!(!ws.toggle_floating(w1));
    let placed = ws.apply_layout(&layout, area);
    assert_eq!(placed.len(), 2);

    // Unknown ids are inert.
    let ghost = WindowId::new(&mut ids);
    assert!(!ws.toggle_floating(ghost));
    assert!(!ws.set_floating(ghost, true));
    assert!(!ws.is_floating(ghost));

    // Removal clears floating state.
    ws.set_floating(w1, true);
    ws.remove_window(w1);
    assert!(!ws.is_floating(w1));
}

#[test]
fn test_swap_master() {
    let mut ids = IdSource::new();
    let mut ws = Workspace::new("1");
    let w1 = WindowId::new(&mut ids);
    let w2 = WindowId::new(&mut ids);
    let w3 = WindowId::new(&mut ids);

    ws.add_window(w1); // master
    ws.add_window(w2);
    ws.add_window(w3); // currently focused

    ws.swap_master();

    let windows = ws.get_windows();
    assert_eq!(windows[0], w3); // w3 is now master
    assert_eq!(windows[2], w1); // w1 moved to the end
    assert_eq!(ws.get_focused(), Some(w3)); // w3 remains focused
}

#[test]
fn ids_are_sequential_and_distinct() {
    let mut ids = IdSource::new();
    let a = WindowId::new(&mut ids);
    let b = WindowId::new(&mut ids);
    assert_eq!(a.as_usize(), 1);
    assert_eq!(b.as_usize(), 2);
    assert_ne!(a, b);
}

#[test]
fn focus_next_then_prev_restores_focus() {
    let mut ids = IdSource::new();
    let mut ws = Workspace::new("1");
    let w: Vec<WindowId> = (0..4).map(|_| WindowId::new(&mut ids)).collect();
    for id in &w {
        ws.add_window(*id);
    }
    ws.focus_window(w[1]);
    ws.focus_next();
    assert_eq!(ws.get_focused(), Some(w[2]));
    ws.focus_prev();
    assert_eq!(ws.get_focused(), Some(w[1]));
    ws.focus_prev();
    ws.focus_prev();
    assert_eq!(ws.get_focused(), Some(w[3]));
    ws.focus_next();
    assert_eq!(ws.get_focused(), Some(w[0]));
}

#[test]
fn insert_keeps_focus_and_clamps() {
    let mut ids = IdSource::new();
    let mut ws = Workspace::new("1");
    let a = WindowId::new(&mut ids);
    let b = WindowId::new(&mut ids);
    let c = WindowId::new(&mut ids);
    let d = WindowId::new(&mut ids);
    ws.add_window(a);
    ws.add_window(b);
    ws.insert_window(c, 0);
    assert_eq!(ws.get_windows(), &[c, a, b]);
    assert_eq!(ws.get_focused(), Some(b));
    ws.insert_window(d, 99);
    assert_eq!(ws.get_windows(), &[c, a, b, d]);
    // Duplicates are ignored.
    ws.insert_window(a, 3);
    assert_eq!(ws.get_windows(), &[c, a, b, d]);
    assert_eq!(ws.get_focused(), Some(b));
    // Inserting into an unfocused workspace leaves it unfocused.
    let mut empty = Workspace::new("2");
    empty.insert_window(a, 0);
    assert_eq!(empty.get_focused(), None);
}

#[test]
fn remove_focused_moves_focus() {
    let mut ids = IdSource::new();
    let mut ws = Workspace::new("1");
    let a = WindowId::new(&mut ids);
    let b = WindowId::new(&mut ids);
    let c = WindowId::new(&mut ids);
    ws.add_window(a);
    ws.add_window(b);
    ws.add_window(c);
    ws.focus_window(b);
    ws.remove_window(b);
    // Focus stays at the same index: the next window in the stack.
    assert_eq!(ws.get_focused(), Some(c));
    ws.remove_window(c);
    // The last window was focused: focus moves back one.
    assert_eq!(ws.get_focused(), Some(a));
    // Removing an unknown window changes nothing.
    ws.remove_window(WindowId::new(&mut ids));
    assert_eq!(ws.get_windows(), &[a]);
}

#[test]
fn swap_master_noop_cases() {
    let mut ids = IdSource::new();
    let mut ws = Workspace::new("1");
    let a = WindowId::new(&mut ids);
    let b = WindowId::new(&mut ids);
    ws.add_window(a);
    ws.swap_master();
    assert_eq!(ws.get_windows(), &[a]);
    ws.add_window(b);
    ws.focus_window(a);
    ws.swap_master();
    assert_eq!(ws.get_windows(), &[a, b]);
}

#[test]
fn toggle_twice_restores_and_layout_spec() {
    let mut ids = IdSource::new();
    let mut ws = Workspace::new("web");
    let a = WindowId::new(&mut ids);
    ws.add_window(a);
    ws.toggle_floating(a);
    ws.toggle_floating(a);
    assert!(!ws.is_floating(a));
    assert_eq!(ws.name_str(), "web");
    assert_eq!(ws.layout_spec(), LayoutSpec::default());
    ws.set_layout(LayoutSpec::Max);
    assert_eq!(ws.layout_spec(), LayoutSpec::Max);
    let tiled = ws.tiled_windows();
    assert_eq!(tiled, vec![a]);
    let placed = ws.place_tiled(vec![Rect::new(1, 2, 3, 4), Rect::new(5, 6, 7, 8)]);
    assert_eq!(placed, vec![(a, Rect::new(1, 2, 3, 4))]);
}
