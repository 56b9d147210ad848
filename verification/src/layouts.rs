use vstd::prelude::*;

use crate::geometry::Rect;
use crate::layout::{Layout, part, prefix, split_evenly, lemma_prefix_bounds, lemma_prefix_step};

verus! {

/// Side-by-side columns of (nearly) equal width spanning the full height.
pub struct Columns;

/// Every window fills the whole area (monocle).
pub struct Max;

/// `n` rectangles tiling `width` pixels horizontally from `x`, all `height` tall.
pub open spec fn row_spec(x: int, y: i32, width: int, height: u32, n: int) -> Seq<Rect> {
    Seq::new(
        n as nat,
        |i: int|
            Rect::spec_new(
                (x + prefix(width, n, i)) as i32,
                y,
                part(width, n, i) as u32,
                height,
            ),
    )
}

/// `n` rectangles tiling `height` pixels vertically from `y`, all `width` wide.
pub open spec fn column_spec(x: i32, y: int, width: u32, height: int, n: int) -> Seq<Rect> {
    Seq::new(
        n as nat,
        |i: int|
            Rect::spec_new(
                x,
                (y + prefix(height, n, i)) as i32,
                width,
                part(height, n, i) as u32,
            ),
    )
}

/// The columns layout of `area` for `n` windows.
pub open spec fn columns_spec(area: Rect, n: int) -> Seq<Rect> {
    row_spec(area.origin.x as int, area.origin.y, area.size.width as int, area.size.height, n)
}

/// The master/stack layout: with at most `master_count` windows they share
/// one full-width column; otherwise the first `master_count` stack up in a
/// left column `master_width` wide and the rest in the right column.
pub open spec fn monad_tall_spec(
    area: Rect,
    n: int,
    master_count: int,
    master_width: int,
) -> Seq<Rect> {
    if n == 0 {
        Seq::empty()
    } else if n <= master_count {
        column_spec(area.origin.x, area.origin.y as int, area.size.width, area.size.height as int, n)
    } else {
        column_spec(
            area.origin.x,
            area.origin.y as int,
            master_width as u32,
            area.size.height as int,
            master_count,
        ) + column_spec(
            (area.origin.x + master_width) as i32,
            area.origin.y as int,
            (area.size.width - master_width) as u32,
            area.size.height as int,
            n - master_count,
        )
    }
}

/// Rectangles tiling a row left to right from `x`.
fn build_row(x: i32, y: i32, width: u32, height: u32, n: usize) -> (rects: Vec<Rect>)
    requires
        0 < n <= u32::MAX,
        x + width <= i32::MAX,
    ensures
        rects@ == row_spec(x as int, y, width as int, height, n as int),
{
    let widths = split_evenly(width, n);
    let mut rects: Vec<Rect> = Vec::new();
    let mut cur: i64 = x as i64;
    let mut i: usize = 0;
    while i < n
        invariant
            0 < n <= u32::MAX,
            x + width <= i32::MAX,
            widths@ == crate::layout::split_seq(width as int, n as int),
            i <= n,
            cur == x + prefix(width as int, n as int, i as int),
            rects@ =~= row_spec(x as int, y, width as int, height, n as int).take(i as int),
        decreases n - i,
    {
        proof {
            lemma_prefix_bounds(width as int, n as int, i as int);
            lemma_prefix_step(width as int, n as int, i as int);
        }
        let w = widths[i];
        rects.push(Rect::new(cur as i32, y, w, height));
        cur = cur + w as i64;
        i = i + 1;
    }
    rects
}

/// Rectangles tiling a column top to bottom from `y`.
fn build_column(x: i32, y: i32, width: u32, height: u32, n: usize) -> (rects: Vec<Rect>)
    requires
        n <= u32::MAX,
        height <= i32::MAX,
        y + height <= i32::MAX,
    ensures
        rects@ == column_spec(x, y as int, width, height as int, n as int),
{
    if n == 0 {
        let v: Vec<Rect> = Vec::new();
        assert(v@ =~= column_spec(x, y as int, width, height as int, n as int));
        return v;
    }
    let heights = split_evenly(height, n);
    let mut rects: Vec<Rect> = Vec::new();
    let mut cur: i32 = y;
    let mut i: usize = 0;
    while i < n
        invariant
            0 < n <= u32::MAX,
            height <= i32::MAX,
            y + height <= i32::MAX,
            heights@ == crate::layout::split_seq(height as int, n as int),
            i <= n,
            cur == y + prefix(height as int, n as int, i as int),
            rects@ =~= column_spec(x, y as int, width, height as int, n as int).take(i as int),
        decreases n - i,
    {
        proof {
            lemma_prefix_bounds(height as int, n as int, i as int);
            lemma_prefix_step(height as int, n as int, i as int);
        }
        let h = heights[i];
        rects.push(Rect::new(x, cur, width, h));
        cur = cur + h as i32;
        i = i + 1;
    }
    rects
}

impl Columns {
    /// Columns of (nearly) equal width; the leftover pixels of the integer
    /// division go to the leftmost columns.
    pub fn apply(&self, area: Rect, num_windows: usize) -> (rects: Vec<Rect>)
        requires
            num_windows <= u32::MAX,
            area.origin.x + area.size.width <= i32::MAX,
        ensures
            rects@ == columns_spec(area, num_windows as int),
    {
        if num_windows == 0 {
            let v: Vec<Rect> = Vec::new();
            assert(v@ =~= columns_spec(area, 0));
            return v;
        }
        build_row(area.origin.x, area.origin.y, area.size.width, area.size.height, num_windows)
    }
}

impl Layout for Columns {
    open spec fn spec_apply(&self, area: Rect, num_windows: int) -> Seq<Rect> {
        columns_spec(area, num_windows)
    }

    open spec fn spec_name(&self) -> Seq<char> {
        "columns"@
    }

    open spec fn accepts(&self, area: Rect, num_windows: int) -> bool {
        num_windows <= u32::MAX && area.origin.x + area.size.width <= i32::MAX
    }

    fn apply(&self, area: Rect, num_windows: usize) -> (rects: Vec<Rect>) {
        Columns::apply(self, area, num_windows)
    }

    fn name(&self) -> &'static str {
        "columns"
    }
}

impl Max {
    /// One copy of `area` per window.
    pub fn apply(&self, area: Rect, num_windows: usize) -> (rects: Vec<Rect>)
        ensures
            rects@ == Seq::new(num_windows as nat, |i: int| area),
    {
        let mut rects: Vec<Rect> = Vec::new();
        let mut i: usize = 0;
        while i < num_windows
            invariant
                i <= num_windows,
                rects@ =~= Seq::new(i as nat, |j: int| area),
            decreases num_windows - i,
        {
            rects.push(area);
            i = i + 1;
        }
        rects
    }
}

impl Layout for Max {
    open spec fn spec_apply(&self, area: Rect, num_windows: int) -> Seq<Rect> {
        Seq::new(num_windows as nat, |i: int| area)
    }

    open spec fn spec_name(&self) -> Seq<char> {
        "max"@
    }

    open spec fn accepts(&self, area: Rect, num_windows: int) -> bool {
        true
    }

    fn apply(&self, area: Rect, num_windows: usize) -> (rects: Vec<Rect>) {
        Max::apply(self, area, num_windows)
    }

    fn name(&self) -> &'static str {
        "max"
    }
}

/// The master/stack tiling once the master column width is known.
///
/// With `num_windows <= master_count` the windows share one full-width
/// column; otherwise `master_count` windows stack in a left column
/// `master_width` wide and the remaining ones in the right column.
pub fn monad_tall_apply(
    area: Rect,
    num_windows: usize,
    master_count: usize,
    master_width: u32,
) -> (rects: Vec<Rect>)
    requires
        area.fits(),
        num_windows <= u32::MAX,
        master_width <= area.size.width,
    ensures
        rects@ == monad_tall_spec(
            area,
            num_windows as int,
            master_count as int,
            master_width as int,
        ),
{
    if num_windows == 0 {
        let v: Vec<Rect> = Vec::new();
        assert(v@ =~= monad_tall_spec(area, 0, master_count as int, master_width as int));
        return v;
    }
    if num_windows <= master_count {
        return build_column(
            area.origin.x,
            area.origin.y,
            area.size.width,
            area.size.height,
            num_windows,
        );
    }
    let stack_width: u32 = area.size.width - master_width;
    let stack_count: usize = num_windows - master_count;
    let mut rects = build_column(
        area.origin.x,
        area.origin.y,
        master_width,
        area.size.height,
        master_count,
    );
    let mut stack = build_column(
        area.origin.x + master_width as i32,
        area.origin.y,
        stack_width,
        area.size.height,
        stack_count,
    );
    rects.append(&mut stack);
    rects
}

} // verus!

verus! {

/// Consecutive rectangles of a row share an edge, and together they span
/// exactly `width` pixels starting at `x`.
pub proof fn lemma_row_tiles(x: int, y: i32, width: int, height: u32, n: int)
    requires
        0 < n,
        0 <= width <= u32::MAX,
        i32::MIN <= x,
        x + width <= i32::MAX,
    ensures
        row_spec(x, y, width, height, n).len() == n,
        row_spec(x, y, width, height, n)[0].origin.x == x,
        row_spec(x, y, width, height, n)[n - 1].right() == x + width,
        forall|i: int|
            0 <= i < n - 1 ==> #[trigger] row_spec(x, y, width, height, n)[i + 1].origin.x
                == row_spec(x, y, width, height, n)[i].right(),
{
    let s = row_spec(x, y, width, height, n);
    lemma_prefix_bounds(width, n, 0);
    lemma_prefix_bounds(width, n, n - 1);
    lemma_prefix_step(width, n, n - 1);
    assert forall|i: int| 0 <= i < n - 1 implies #[trigger] s[i + 1].origin.x == s[i].right() by {
        lemma_prefix_bounds(width, n, i);
        lemma_prefix_bounds(width, n, i + 1);
        lemma_prefix_step(width, n, i);
    }
}

/// Consecutive rectangles of a column share an edge, and together they
/// span exactly `height` pixels starting at `y`.
pub proof fn lemma_column_tiles(x: i32, y: int, width: u32, height: int, n: int)
    requires
        0 < n,
        0 <= height <= i32::MAX,
        i32::MIN <= y,
        y + height <= i32::MAX,
    ensures
        column_spec(x, y, width, height, n).len() == n,
        column_spec(x, y, width, height, n)[0].origin.y == y,
        column_spec(x, y, width, height, n)[n - 1].bottom() == y + height,
        forall|i: int|
            0 <= i < n - 1 ==> #[trigger] column_spec(x, y, width, height, n)[i + 1].origin.y
                == column_spec(x, y, width, height, n)[i].bottom(),
{
    let s = column_spec(x, y, width, height, n);
    lemma_prefix_bounds(height, n, 0);
    lemma_prefix_bounds(height, n, n - 1);
    lemma_prefix_step(height, n, n - 1);
    assert forall|i: int| 0 <= i < n - 1 implies #[trigger] s[i + 1].origin.y == s[i].bottom() by {
        lemma_prefix_bounds(height, n, i);
        lemma_prefix_bounds(height, n, i + 1);
        lemma_prefix_step(height, n, i);
    }
}

/// Law: the columns layout covers the full width of the area with no gap
/// and no overlap, every column spanning the full height.
pub proof fn columns_cover_area(area: Rect, n: usize)
    requires
        area.origin.x + area.size.width <= i32::MAX,
        0 < n,
    ensures
        columns_spec(area, n as int).len() == n,
        columns_spec(area, n as int)[0].origin.x == area.origin.x,
        columns_spec(area, n as int)[n - 1].right() == area.right(),
        forall|i: int|
            0 <= i < n - 1 ==> #[trigger] columns_spec(area, n as int)[i + 1].origin.x
                == columns_spec(area, n as int)[i].right(),
        forall|i: int|
            0 <= i < n ==> (#[trigger] columns_spec(area, n as int)[i]).origin.y
                == area.origin.y && columns_spec(area, n as int)[i].size.height
                == area.size.height,
{
    lemma_row_tiles(
        area.origin.x as int,
        area.origin.y,
        area.size.width as int,
        area.size.height,
        n as int,
    );
}

/// Law: in the master/stack layout with more windows than masters, the
/// stack column covers the full height of the area with no gap, and the
/// master and stack columns together span the full width.
pub proof fn monad_tall_stack_covers_height(
    area: Rect,
    n: usize,
    master_count: usize,
    master_width: u32,
)
    requires
        area.fits(),
        master_count < n,
        master_width <= area.size.width,
    ensures
        ({
            let s = monad_tall_spec(area, n as int, master_count as int, master_width as int);
            &&& s.len() == n
            &&& s[master_count as int].origin.y == area.origin.y
            &&& s[n - 1].bottom() == area.bottom()
            &&& forall|i: int|
                master_count <= i < n - 1 ==> #[trigger] s[i + 1].origin.y == s[i].bottom()
            &&& forall|i: int|
                master_count <= i < n ==> (#[trigger] s[i]).origin.x + s[i].size.width
                    == area.right()
        }),
{
    let m = master_count as int;
    let k = n - m;
    let masters = column_spec(
        area.origin.x,
        area.origin.y as int,
        master_width,
        area.size.height as int,
        m,
    );
    let stack = column_spec(
        (area.origin.x + master_width) as i32,
        area.origin.y as int,
        (area.size.width - master_width) as u32,
        area.size.height as int,
        k,
    );
    lemma_column_tiles(
        (area.origin.x + master_width) as i32,
        area.origin.y as int,
        (area.size.width - master_width) as u32,
        area.size.height as int,
        k,
    );
    let s = monad_tall_spec(area, n as int, m, master_width as int);
    assert(s == masters + stack);
    assert(masters.len() == m);
    assert forall|i: int| m <= i < n - 1 implies #[trigger] s[i + 1].origin.y == s[i].bottom() by {
        assert(s[i] == stack[i - m]);
        assert(s[i + 1] == stack[i - m + 1]);
    }
    assert forall|i: int| m <= i < n implies (#[trigger] s[i]).origin.x + s[i].size.width
        == area.right() by {
        assert(s[i] == stack[i - m]);
    }
    assert(s[m] == stack[0]);
    assert(s[n - 1] == stack[k - 1]);
}

} // verus!
