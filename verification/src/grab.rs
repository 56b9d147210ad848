//! Interactive resizing of floating windows.
use vstd::prelude::*;

use crate::geometry::Rect;

verus! {

/// Minimum user-resizable width of floating windows.
pub const MIN_FLOAT_W: i32 = 120i32;
/// Minimum user-resizable height of floating windows.
pub const MIN_FLOAT_H: i32 = 80i32;

/// Corner grabbed for an interactive resize.
#[derive(Debug, Clone, Copy, PartialEq, Eq, Structural)]
pub enum GrabCorner {
    TopLeft,
    TopRight,
    BottomLeft,
    BottomRight,
}

/// The corner on the given sides of a rectangle.
pub fn corner_from(top: bool, left: bool) -> (c: GrabCorner)
    ensures
        c == match (top, left) {
            (true, true) => GrabCorner::TopLeft,
            (true, false) => GrabCorner::TopRight,
            (false, true) => GrabCorner::BottomLeft,
            (false, false) => GrabCorner::BottomRight,
        },
{
    match (top, left) {
        (true, true) => GrabCorner::TopLeft,
        (true, false) => GrabCorner::TopRight,
        (false, true) => GrabCorner::BottomLeft,
        (false, false) => GrabCorner::BottomRight,
    }
}

pub open spec fn min_int(a: int, b: int) -> int {
    if a < b { a } else { b }
}

pub open spec fn max_int(a: int, b: int) -> int {
    if a > b { a } else { b }
}

/// New origin and size `(x, y, w, h)` of a window resized from `corner`
/// by a pointer moved `(dx, dy)` since the grab started: the grabbed
/// corner follows the pointer, the opposite corner stays put, and the
/// size never drops below the minimum.
pub open spec fn resized(corner: GrabCorner, start: Rect, dx: int, dy: int) -> (int, int, int, int) {
    let x0 = start.origin.x as int;
    let y0 = start.origin.y as int;
    let x1 = start.right();
    let y1 = start.bottom();
    match corner {
        GrabCorner::TopLeft => {
            let nx = min_int(x0 + dx, x1 - MIN_FLOAT_W);
            let ny = min_int(y0 + dy, y1 - MIN_FLOAT_H);
            (nx, ny, x1 - nx, y1 - ny)
        },
        GrabCorner::TopRight => {
            let ny = min_int(y0 + dy, y1 - MIN_FLOAT_H);
            (x0, ny, max_int(start.size.width + dx, MIN_FLOAT_W as int), y1 - ny)
        },
        GrabCorner::BottomLeft => {
            let nx = min_int(x0 + dx, x1 - MIN_FLOAT_W);
            (nx, y0, x1 - nx, max_int(start.size.height + dy, MIN_FLOAT_H as int))
        },
        GrabCorner::BottomRight => (
            x0,
            y0,
            max_int(start.size.width + dx, MIN_FLOAT_W as int),
            max_int(start.size.height + dy, MIN_FLOAT_H as int),
        ),
    }
}

pub open spec fn in_i32(v: int) -> bool {
    i32::MIN <= v <= i32::MAX
}

/// The resize arithmetic stays within `i32` for this grab.
pub open spec fn resize_in_range(corner: GrabCorner, start: Rect, dx: int, dy: int) -> bool {
    let x0 = start.origin.x as int;
    let y0 = start.origin.y as int;
    let x1 = start.right();
    let y1 = start.bottom();
    let r = resized(corner, start, dx, dy);
    &&& start.fits()
    &&& in_i32(x1 - MIN_FLOAT_W) && in_i32(y1 - MIN_FLOAT_H)
    &&& match corner {
        GrabCorner::TopLeft => in_i32(x0 + dx) && in_i32(y0 + dy),
        GrabCorner::TopRight => in_i32(y0 + dy) && in_i32(start.size.width + dx),
        GrabCorner::BottomLeft => in_i32(x0 + dx) && in_i32(start.size.height + dy),
        GrabCorner::BottomRight => in_i32(start.size.width + dx) && in_i32(start.size.height + dy),
    }
    &&& in_i32(r.2) && in_i32(r.3)
}

/// Geometry of a floating window resized from `corner` by a pointer that
/// moved `(dx, dy)` since the grab started at `start`.
pub fn resize_from_corner(corner: GrabCorner, start: Rect, dx: i32, dy: i32) -> (r: Rect)
    requires
        resize_in_range(corner, start, dx as int, dy as int),
    ensures
        ({
            let (x, y, w, h) = resized(corner, start, dx as int, dy as int);
            r == Rect::spec_new(x as i32, y as i32, w as u32, h as u32)
        }),
{
    let x1 = start.origin.x + start.size.width as i32;
    let y1 = start.origin.y + start.size.height as i32;
    let (nx, ny, nw, nh): (i32, i32, i32, i32) = match corner {
        GrabCorner::TopLeft => {
            let a = start.origin.x + dx;
            let nx = if a < x1 - MIN_FLOAT_W { a } else { x1 - MIN_FLOAT_W };
            let b = start.origin.y + dy;
            let ny = if b < y1 - MIN_FLOAT_H { b } else { y1 - MIN_FLOAT_H };
            (nx, ny, x1 - nx, y1 - ny)
        },
        GrabCorner::TopRight => {
            let b = start.origin.y + dy;
            let ny = if b < y1 - MIN_FLOAT_H { b } else { y1 - MIN_FLOAT_H };
            let c = start.size.width as i32 + dx;
            let nw = if c > MIN_FLOAT_W { c } else { MIN_FLOAT_W };
            (start.origin.x, ny, nw, y1 - ny)
        },
        GrabCorner::BottomLeft => {
            let a = start.origin.x + dx;
            let nx = if a < x1 - MIN_FLOAT_W { a } else { x1 - MIN_FLOAT_W };
            let d = start.size.height as i32 + dy;
            let nh = if d > MIN_FLOAT_H { d } else { MIN_FLOAT_H };
            (nx, start.origin.y, x1 - nx, nh)
        },
        GrabCorner::BottomRight => {
            let c = start.size.width as i32 + dx;
            let nw = if c > MIN_FLOAT_W { c } else { MIN_FLOAT_W };
            let d = start.size.height as i32 + dy;
            let nh = if d > MIN_FLOAT_H { d } else { MIN_FLOAT_H };
            (start.origin.x, start.origin.y, nw, nh)
        },
    };
    Rect::new(nx, ny, nw as u32, nh as u32)
}

fn fits_i32(v: i64) -> (r: bool)
    ensures
        r == in_i32(v as int),
{
    -0x8000_0000i64 <= v && v <= 0x7FFF_FFFFi64
}

/// Whether [`resize_from_corner`] can run on these arguments: its
/// arithmetic stays within `i32` (see [`resize_in_range`]).
pub fn resize_fits(corner: GrabCorner, start: Rect, dx: i32, dy: i32) -> (b: bool)
    ensures
        b == resize_in_range(corner, start, dx as int, dy as int),
{
    let lo: i64 = -0x8000_0000i64;
    let hi: i64 = 0x7FFF_FFFFi64;
    let x0 = start.origin.x as i64;
    let y0 = start.origin.y as i64;
    let w0 = start.size.width as i64;
    let h0 = start.size.height as i64;
    let x1 = x0 + w0;
    let y1 = y0 + h0;
    if !(w0 <= hi && h0 <= hi && x1 <= hi && y1 <= hi) {
        return false;
    }
    let xm = x1 - MIN_FLOAT_W as i64;
    let ym = y1 - MIN_FLOAT_H as i64;
    if !(lo <= xm && xm <= hi && lo <= ym && ym <= hi) {
        return false;
    }
    let ax = x0 + dx as i64;
    let ay = y0 + dy as i64;
    let cw = w0 + dx as i64;
    let ch = h0 + dy as i64;
    let nx = if ax < xm { ax } else { xm };
    let ny = if ay < ym { ay } else { ym };
    let mw = if cw > MIN_FLOAT_W as i64 { cw } else { MIN_FLOAT_W as i64 };
    let mh = if ch > MIN_FLOAT_H as i64 { ch } else { MIN_FLOAT_H as i64 };
    match corner {
        GrabCorner::TopLeft => fits_i32(ax) && fits_i32(ay) && fits_i32(x1 - nx) && fits_i32(y1 - ny),
        GrabCorner::TopRight => fits_i32(ay) && fits_i32(cw) && fits_i32(mw) && fits_i32(y1 - ny),
        GrabCorner::BottomLeft => fits_i32(ax) && fits_i32(ch) && fits_i32(x1 - nx) && fits_i32(mh),
        GrabCorner::BottomRight => fits_i32(cw) && fits_i32(ch) && fits_i32(mw) && fits_i32(mh),
    }
}

/// Law: a resize never shrinks a window below the minimum size, and the
/// corner opposite to the grabbed one stays where it was.
pub proof fn resize_keeps_opposite_corner(corner: GrabCorner, start: Rect, dx: int, dy: int)
    ensures
        ({
            let (x, y, w, h) = resized(corner, start, dx, dy);
            &&& w >= MIN_FLOAT_W
            &&& h >= MIN_FLOAT_H
            &&& corner == GrabCorner::TopLeft ==> x + w == start.right() && y + h == start.bottom()
            &&& corner == GrabCorner::TopRight ==> x == start.origin.x && y + h == start.bottom()
            &&& corner == GrabCorner::BottomLeft ==> x + w == start.right() && y == start.origin.y
            &&& corner == GrabCorner::BottomRight ==> x == start.origin.x && y == start.origin.y
        }),
{
}

} // verus!
