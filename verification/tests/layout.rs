use aerowm::geometry::Rect;
use aerowm::layout::{split_evenly, LayoutSpec, DEFAULT_MASTER_RATIO_BITS};
use aerowm::layouts::{monad_tall_apply, Columns, Max};

fn master_width(area: Rect, ratio: f32) -> u32 {
    (area.size.width as f32 * ratio) as u32
}

#[test]
fn split_is_exact_with_remainder() {
    // 1080 / 7 = 154 rem 2 → first two get the spare pixels.
    assert_eq!(
        split_evenly(1080, 7),
        vec![155, 155, 154, 154, 154, 154, 154]
    );
}

#[test]
fn split_even_division_unchanged() {
    assert_eq!(split_evenly(1920, 3), vec![640, 640, 640]);
    assert_eq!(split_evenly(1080, 1), vec![1080]);
    assert!(split_evenly(1080, 0).is_empty());
}

#[test]
fn split_sums_to_total() {
    for n in 1..=13usize {
        let parts = split_evenly(1000, n);
        assert_eq!(parts.len(), n);
        assert_eq!(parts.iter().sum::<u32>(), 1000);
        let max = *parts.iter().max().unwrap();
        let min = *parts.iter().min().unwrap();
        assert!(max - min <= 1);
    }
    assert_eq!(split_evenly(2, 5), vec![1, 1, 0, 0, 0]);
}

#[test]
fn test_columns_layout() {
    let layout = Columns;
    let area = Rect::new(0, 0, 1920, 1080);
    let rects = layout.apply(area, 3);

    assert_eq!(rects.len(), 3);
    assert_eq!(rects[0], Rect::new(0, 0, 640, 1080));
    assert_eq!(rects[1], Rect::new(640, 0, 640, 1080));
    assert_eq!(rects[2], Rect::new(1280, 0, 640, 1080));
}

#[test]
fn test_columns_no_pixel_loss() {
    // 1920 / 7 = 274 rem 2: widths must still sum to the full width.
    let layout = Columns;
    let area = Rect::new(0, 0, 1920, 1080);
    let rects = layout.apply(area, 7);
    assert_eq!(rects.len(), 7);
    let total: u32 = rects.iter().map(|r| r.size.width).sum();
    assert_eq!(total, 1920, "columns must cover full width");
    let last = rects.last().unwrap();
    assert_eq!(last.origin.x + last.size.width as i32, 1920);
}

#[test]
fn columns_offset_area_is_adjacent() {
    let area = Rect::new(-50, 30, 100, 40);
    let rects = Columns.apply(area, 3);
    assert_eq!(rects[0], Rect::new(-50, 30, 34, 40));
    assert_eq!(rects[1], Rect::new(-16, 30, 33, 40));
    assert_eq!(rects[2], Rect::new(17, 30, 33, 40));
    assert!(Columns.apply(area, 0).is_empty());
}

#[test]
fn test_max_layout() {
    let layout = Max;
    let area = Rect::new(10, 10, 1000, 500);
    let rects = layout.apply(area, 5);

    assert_eq!(rects.len(), 5);
    for rect in rects {
        assert_eq!(rect, area);
    }
}

#[test]
fn test_monad_tall_single_window() {
    let area = Rect::new(0, 0, 1920, 1080);
    let rects = monad_tall_apply(area, 1, 1, master_width(area, 0.5));

    assert_eq!(rects.len(), 1);
    assert_eq!(rects[0], Rect::new(0, 0, 1920, 1080));
}

#[test]
fn test_monad_tall_two_windows() {
    let area = Rect::new(0, 0, 1920, 1080);
    let rects = monad_tall_apply(area, 2, 1, master_width(area, 0.5));

    assert_eq!(rects.len(), 2);
    assert_eq!(rects[0], Rect::new(0, 0, 960, 1080));
    assert_eq!(rects[1], Rect::new(960, 0, 960, 1080));
}

#[test]
fn test_monad_tall_three_windows() {
    let area = Rect::new(0, 0, 1920, 1080);
    let rects = monad_tall_apply(area, 3, 1, master_width(area, 0.5));

    assert_eq!(rects.len(), 3);
    assert_eq!(rects[0], Rect::new(0, 0, 960, 1080));
    assert_eq!(rects[1], Rect::new(960, 0, 960, 540));
    assert_eq!(rects[2], Rect::new(960, 540, 960, 540));
}

#[test]
fn test_monad_tall_no_pixel_loss() {
    // 8 windows: 1 master + 7 stack; 1080 / 7 = 154 rem 2, so the
    // stack column must still tile exactly the full height.
    let area = Rect::new(0, 0, 1920, 1080);
    let rects = monad_tall_apply(area, 8, 1, master_width(area, 0.5));
    assert_eq!(rects.len(), 8);
    let stack_sum: u32 = rects[1..].iter().map(|r| r.size.height).sum();
    assert_eq!(stack_sum, 1080, "stack column must cover full height");
    // Last window ends exactly at the area edge.
    let last = rects.last().unwrap();
    assert_eq!(last.origin.y + last.size.height as i32, 1080);
}

#[test]
fn monad_tall_two_masters() {
    let area = Rect::new(0, 0, 800, 600);
    let mw = master_width(area, 0.42);
    assert_eq!(mw, 336);
    let rects = monad_tall_apply(area, 3, 2, mw);
    assert_eq!(
        rects,
        vec![
            Rect::new(0, 0, 336, 300),
            Rect::new(0, 300, 336, 300),
            Rect::new(336, 0, 464, 600),
        ]
    );
    // Within the master count the windows share one full-width column.
    let rects = monad_tall_apply(area, 2, 2, mw);
    assert_eq!(rects, vec![Rect::new(0, 0, 800, 300), Rect::new(0, 300, 800, 300)]);
    assert!(monad_tall_apply(area, 0, 1, mw).is_empty());
}

#[test]
fn layout_names() {
    assert_eq!(LayoutSpec::from_name("columns"), Some(LayoutSpec::Columns));
    assert_eq!(LayoutSpec::from_name("max"), Some(LayoutSpec::Max));
    assert_eq!(LayoutSpec::from_name("monad_tall"), Some(LayoutSpec::default()));
    assert_eq!(LayoutSpec::from_name("nope"), None, "unknown names stay unknown");
    assert_eq!(
        LayoutSpec::default(),
        LayoutSpec::MonadTall { master_ratio_bits: DEFAULT_MASTER_RATIO_BITS, master_count: 1 }
    );
    assert_eq!(f32::from_bits(DEFAULT_MASTER_RATIO_BITS), 0.5);
    assert_eq!(LayoutSpec::Columns.name(), "columns");
    assert_eq!(LayoutSpec::Max.name(), "max");
    assert_eq!(LayoutSpec::default().name(), "monad_tall");
}

#[test]
fn layout_spec_roundtrip() {
    for spec in [
        LayoutSpec::MonadTall { master_ratio_bits: 0.42f32.to_bits(), master_count: 2 },
        LayoutSpec::Columns,
        LayoutSpec::Max,
    ] {
        // The spec survives a trip through its parameters.
        let back = match spec {
            LayoutSpec::MonadTall { master_ratio_bits, master_count } => LayoutSpec::MonadTall {
                master_ratio_bits: f32::from_bits(master_ratio_bits).to_bits(),
                master_count,
            },
            other => LayoutSpec::from_name(other.name()).unwrap(),
        };
        assert_eq!(spec, back);
        // Every spec tiles a working layout.
        let area = Rect::new(0, 0, 800, 600);
        let rects = match back {
            LayoutSpec::MonadTall { master_ratio_bits, master_count } => monad_tall_apply(
                area,
                3,
                master_count,
                master_width(area, f32::from_bits(master_ratio_bits)),
            ),
            LayoutSpec::Columns => Columns.apply(area, 3),
            LayoutSpec::Max => Max.apply(area, 3),
        };
        assert_eq!(rects.len(), 3);
    }
    assert_eq!(LayoutSpec::from_name("nope"), None, "unknown names stay unknown");
}

#[test]
fn columns_ignore_the_height_range() {
    // Heights and widths beyond the signed range are fine as long as the
    // columns' left edges fit.
    let area = Rect::new(-2_000_000_000, 0, 4_000_000_000, u32::MAX);
    let rects = Columns.apply(area, 2);
    assert_eq!(rects, vec![
        Rect::new(-2_000_000_000, 0, 2_000_000_000, u32::MAX),
        Rect::new(0, 0, 2_000_000_000, u32::MAX),
    ]);
    let rects = Max.apply(Rect::new(i32::MAX, i32::MAX, u32::MAX, u32::MAX), 2);
    assert_eq!(rects.len(), 2);
}
