//! Pixel operations on an ARGB8888 buffer (4 bytes per pixel, little
//! endian, rows of `width` pixels).
use vstd::prelude::*;

verus! {

/// Byte `j` (0 = least significant) of the little-endian encoding of `color`.
pub open spec fn color_byte(color: u32, j: int) -> u8 {
    (if j == 0 {
        color % 256
    } else if j == 1 {
        (color / 256) % 256
    } else if j == 2 {
        (color / 65536) % 256
    } else {
        color / 16777216
    }) as u8
}

fn le_bytes(color: u32) -> (b: [u8; 4])
    ensures
        forall|j: int| 0 <= j < 4 ==> #[trigger] b@[j] == color_byte(color, j),
{
    [
        (color % 256) as u8,
        ((color / 256) % 256) as u8,
        ((color / 65536) % 256) as u8,
        (color / 16777216) as u8,
    ]
}

/// Paints every complete pixel of the buffer with `color`; trailing bytes
/// that do not form a whole pixel are left alone.
pub fn fill_pixels(buf: &mut [u8], color: u32)
    ensures
        final(buf)@.len() == old(buf)@.len(),
        forall|k: int|
            0 <= k < old(buf)@.len() ==> #[trigger] final(buf)@[k] == if k < (old(buf)@.len() / 4) * 4 {
                color_byte(color, k % 4)
            } else {
                old(buf)@[k]
            },
{
    let bytes = le_bytes(color);
    let n = buf.len() / 4 * 4;
    let mut k: usize = 0;
    while k < n
        invariant
            n == (old(buf)@.len() / 4) * 4,
            n <= old(buf)@.len(),
            buf@.len() == old(buf)@.len(),
            k <= n,
            forall|j: int| 0 <= j < 4 ==> #[trigger] bytes@[j] == color_byte(color, j),
            forall|i: int| 0 <= i < k ==> #[trigger] buf@[i] == color_byte(color, i % 4),
            forall|i: int| k <= i < buf@.len() ==> #[trigger] buf@[i] == old(buf)@[i],
        decreases n - k,
    {
        buf[k] = bytes[k % 4];
        k = k + 1;
    }
}

/// `p` lies in the clipped rectangle of a `width` x `height` canvas that
/// `fill_rect_pixels` paints: within rows `min(y, height)..min(y + h,
/// height)` and columns `min(x, width)..min(x + w, width)`, on a row that
/// lies wholly inside the buffer.
pub open spec fn painted(
    p: int,
    len: int,
    width: u32,
    height: u32,
    x: u32,
    y: u32,
    w: u32,
    h: u32,
) -> bool {
    let x0 = if x < width { x as int } else { width as int };
    let x1 = if x + w < width { x + w } else { width as int };
    let y0 = if y < height { y as int } else { height as int };
    let y1 = if y + h < height { y + h } else { height as int };
    &&& width > 0
    &&& y0 <= p / (width as int) < y1
    &&& x0 <= p % (width as int) < x1
    &&& ((p / (width as int)) * width + x1) * 4 <= len
}

/// Paints the part of the rectangle (`x`, `y`, `w`, `h`) that lies on the
/// canvas with `color`, row by row; rows that would extend past the end of
/// the buffer are skipped.
pub fn fill_rect_pixels(buf: &mut [u8], width: u32, height: u32, x: u32, y: u32, w: u32, h: u32, color: u32)
    requires
        x + w <= u32::MAX,
        y + h <= u32::MAX,
        width * height <= u32::MAX,
        width * height * 4 <= usize::MAX,
    ensures
        final(buf)@.len() == old(buf)@.len(),
        forall|k: int|
            0 <= k < old(buf)@.len() ==> #[trigger] final(buf)@[k] == if painted(
                k / 4,
                old(buf)@.len() as int,
                width,
                height,
                x,
                y,
                w,
                h,
            ) {
                color_byte(color, k % 4)
            } else {
                old(buf)@[k]
            },
{
    let bytes = le_bytes(color);
    let x1: u32 = if x + w < width { x + w } else { width };
    let y1: u32 = if y + h < height { y + h } else { height };
    let x0: u32 = if x < width { x } else { width };
    let mut row: u32 = if y < height { y } else { height };
    let len = buf.len();
    let ghost y0 = row as int;
    while row < y1
        invariant
            buf@.len() == old(buf)@.len(),
            len == buf@.len(),
            x0 <= width,
            x1 <= width,
            y1 <= height,
            y0 <= row <= y1 || (y1 < y0 && row == y0),
            width * height <= u32::MAX,
            width * height * 4 <= usize::MAX,
            x0 == (if x < width { x as int } else { width as int }),
            x1 == (if x + w < width { x + w } else { width as int }),
            y0 == (if y < height { y as int } else { height as int }),
            y1 == (if y + h < height { y + h } else { height as int }),
            forall|j: int| 0 <= j < 4 ==> #[trigger] bytes@[j] == color_byte(color, j),
            forall|k: int|
                0 <= k < buf@.len() ==> #[trigger] buf@[k] == if painted(
                    k / 4,
                    len as int,
                    width,
                    height,
                    x,
                    y,
                    w,
                    h,
                ) && (k / 4) / (width as int) < row {
                    color_byte(color, k % 4)
                } else {
                    old(buf)@[k]
                },
        decreases y1 - row,
    {
        assert(row < height);
        assert((row as int) * (width as int) + (width as int) <= (width as int) * (height as int)) by (nonlinear_arith)
            requires
                row < height,
        ;
        let base: usize = ((row * width + x0) as usize) * 4;
        let end: usize = ((row * width + x1) as usize) * 4;
        if base < end && end <= len {
            let ghost before = buf@;
            let mut k: usize = base;
            while k < end
                invariant
                    buf@.len() == old(buf)@.len(),
                    len == buf@.len(),
                    base <= k <= end <= len,
                    base == (row * width + x0) * 4,
                    end == (row * width + x1) * 4,
                    forall|j: int| 0 <= j < 4 ==> #[trigger] bytes@[j] == color_byte(color, j),
                    forall|i: int| 0 <= i < buf@.len() && (i < base || i >= k) ==> #[trigger] buf@[i] == before[i],
                    forall|i: int| base <= i < k ==> #[trigger] buf@[i] == color_byte(color, i % 4),
                decreases end - k,
            {
                buf[k] = bytes[k % 4];
                k = k + 1;
            }
            proof {
                assert forall|k: int| 0 <= k < buf@.len() implies #[trigger] buf@[k] == if painted(
                    k / 4,
                    len as int,
                    width,
                    height,
                    x,
                    y,
                    w,
                    h,
                ) && (k / 4) / (width as int) < row + 1 {
                    color_byte(color, k % 4)
                } else {
                    old(buf)@[k]
                } by {
                    lemma_row_pixel(k, row as int, width as int, x0 as int, x1 as int);
                }
            }
        } else {
            proof {
                assert forall|k: int| 0 <= k < buf@.len() implies #[trigger] buf@[k] == if painted(
                    k / 4,
                    len as int,
                    width,
                    height,
                    x,
                    y,
                    w,
                    h,
                ) && (k / 4) / (width as int) < row + 1 {
                    color_byte(color, k % 4)
                } else {
                    old(buf)@[k]
                } by {
                    lemma_row_pixel(k, row as int, width as int, x0 as int, x1 as int);
                }
            }
        }
        row = row + 1;
    }
}

/// A byte index lies in the painted span of row `row` exactly when its
/// pixel is on that row, within the clipped columns.
proof fn lemma_row_pixel(k: int, row: int, width: int, x0: int, x1: int)
    requires
        0 <= k,
        0 <= row,
        0 < width || (x0 == 0 && x1 == 0),
        0 <= x0 <= width,
        0 <= x1 <= width,
    ensures
        width > 0 ==> ((row * width + x0) * 4 <= k < (row * width + x1) * 4 <==> (k / 4) / width
            == row && x0 <= (k / 4) % width < x1),
        width > 0 ==> (k / 4) / width == row ==> (k / 4) % 4 == (k / 4) % 4 && k % 4 == k % 4,
{
    if width > 0 {
        let p = k / 4;
        vstd::arithmetic::div_mod::lemma_fundamental_div_mod(k, 4);
        vstd::arithmetic::div_mod::lemma_fundamental_div_mod(p, width);
        let q = p / width;
        let r = p % width;
        assert(0 <= r < width) by {
            vstd::arithmetic::div_mod::lemma_mod_bound(p, width);
        }
        assert(0 <= k % 4 < 4);
        if (row * width + x0) * 4 <= k && k < (row * width + x1) * 4 {
            assert(row * width + x0 <= p < row * width + x1);
            assert(q == row) by {
                assert(q * width + r == p);
                if q < row {
                    assert((q + 1) * width <= row * width) by (nonlinear_arith)
                        requires
                            q + 1 <= row,
                            width > 0,
                    ;
                    assert(q * width + width == (q + 1) * width) by (nonlinear_arith);
                } else if q > row {
                    assert((row + 1) * width <= q * width) by (nonlinear_arith)
                        requires
                            row + 1 <= q,
                            width > 0,
                    ;
                    assert(row * width + width == (row + 1) * width) by (nonlinear_arith);
                }
            }
        }
        if q == row && x0 <= r < x1 {
            assert(p == row * width + r);
        }
    }
}

} // verus!

verus! {

/// Writes one opaque pixel (blue, green, red, alpha 0xFF in memory order)
/// at (`x`, `y`); pixels off the canvas or past the end of the buffer are
/// ignored.
pub fn put_rgb_pixel(buf: &mut [u8], width: u32, height: u32, x: u32, y: u32, r: u8, g: u8, b: u8)
    requires
        width * height <= u32::MAX,
        width * height * 4 <= usize::MAX,
    ensures
        ({
            let off = (y * width + x) * 4;
            if x < width && y < height && off + 4 <= old(buf)@.len() {
                final(buf)@ == old(buf)@.update(off, b).update(off + 1, g).update(off + 2, r).update(
                    off + 3,
                    0xFFu8,
                )
            } else {
                final(buf)@ == old(buf)@
            }
        }),
{
    if x >= width || y >= height {
        return;
    }
    assert((y as int) * (width as int) + (width as int) <= (width as int) * (height as int)) by (nonlinear_arith)
        requires
            y < height,
    ;
    let off: usize = ((y * width + x) as usize) * 4;
    if off + 4 <= buf.len() {
        buf[off] = b;
        buf[off + 1] = g;
        buf[off + 2] = r;
        buf[off + 3] = 0xFF;
    }
}

} // verus!
