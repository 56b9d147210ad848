use aerowm::layers::{topmost_layer, LayerHit, LayerKind};

fn hit(kind: LayerKind, order: usize, x: i32, y: i32, w: i32, h: i32) -> LayerHit {
    LayerHit { kind, order, x, y, w, h }
}

#[test]
fn higher_layers_win() {
    let ls = vec![
        hit(LayerKind::Background, 0, 0, 0, 1920, 1080),
        hit(LayerKind::Top, 1, 0, 0, 1920, 28),
        hit(LayerKind::Bottom, 2, 0, 0, 1920, 1080),
    ];
    assert_eq!(topmost_layer(&ls, 10, 10), Some(1));
    assert_eq!(topmost_layer(&ls, 10, 500), Some(2));
    assert_eq!(topmost_layer(&ls, 2000, 10), None);
    assert_eq!(topmost_layer(&vec![], 0, 0), None);
}

#[test]
fn later_mapped_wins_within_a_layer() {
    let ls = vec![
        hit(LayerKind::Overlay, 0, 0, 0, 100, 100),
        hit(LayerKind::Overlay, 1, 50, 50, 100, 100),
        // Same order on another output: the later one in the list wins.
        hit(LayerKind::Overlay, 1, 60, 60, 10, 10),
    ];
    assert_eq!(topmost_layer(&ls, 10, 10), Some(0));
    assert_eq!(topmost_layer(&ls, 55, 55), Some(1));
    assert_eq!(topmost_layer(&ls, 65, 65), Some(2));
}

#[test]
fn edges_are_half_open() {
    let ls = vec![hit(LayerKind::Top, 0, 0, 0, 10, 10)];
    assert_eq!(topmost_layer(&ls, 0, 0), Some(0));
    assert_eq!(topmost_layer(&ls, 9, 9), Some(0));
    assert_eq!(topmost_layer(&ls, 10, 0), None);
    assert_eq!(topmost_layer(&ls, 0, 10), None);
    // Saturating far edge.
    let ls = vec![hit(LayerKind::Top, 0, i32::MAX - 5, 0, 100, 10)];
    assert_eq!(topmost_layer(&ls, i32::MAX - 1, 0), Some(0));
    assert_eq!(topmost_layer(&ls, i32::MAX, 0), None);
}
