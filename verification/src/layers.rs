//! Pointer hit-testing of layer-shell surfaces (bars, launchers,
//! notifications), which sit above the tiled windows.
use vstd::prelude::*;

verus! {

/// The stacking layers of layer-shell surfaces, bottom to top.
#[derive(Debug, Clone, Copy, PartialEq, Eq, Structural)]
pub enum LayerKind {
    Background,
    Bottom,
    Top,
    Overlay,
}

/// Stacking rank of a layer: Background < Bottom < Top < Overlay.
pub open spec fn rank(k: LayerKind) -> int {
    match k {
        LayerKind::Background => 0,
        LayerKind::Bottom => 1,
        LayerKind::Top => 2,
        LayerKind::Overlay => 3,
    }
}

/// A mapped layer surface as seen by hit-testing: its layer, its mapping
/// order on its output, and its rectangle in global coordinates.
#[derive(Debug, Clone, Copy, PartialEq, Eq, Structural)]
pub struct LayerHit {
    pub kind: LayerKind,
    /// Position in its output's layer map (later = more recently mapped).
    pub order: usize,
    pub x: i32,
    pub y: i32,
    pub w: i32,
    pub h: i32,
}

/// `a + b` saturated to the `i32` range.
pub open spec fn sat_add(a: i32, b: i32) -> int {
    if a + b > i32::MAX {
        i32::MAX as int
    } else if a + b < i32::MIN {
        i32::MIN as int
    } else {
        a + b
    }
}

/// The surface's rectangle contains the point (the right and bottom edges
/// excluded; edges saturate at the ends of the `i32` range).
pub open spec fn covers(l: LayerHit, px: i32, py: i32) -> bool {
    &&& px >= l.x
    &&& px < sat_add(l.x, l.w)
    &&& py >= l.y
    &&& py < sat_add(l.y, l.h)
}

/// `a` is stacked no higher than `b`: a lower layer, or the same layer
/// mapped no later.
pub open spec fn below_or_same(a: LayerHit, b: LayerHit) -> bool {
    rank(a.kind) < rank(b.kind) || (rank(a.kind) == rank(b.kind) && a.order <= b.order)
}

/// Surface `k` of `ls` is the one the pointer at (`px`, `py`) hits: it
/// covers the point, no covering surface is stacked above it, and none
/// after it in the list is stacked as high.
pub open spec fn is_topmost(ls: Seq<LayerHit>, px: i32, py: i32, k: int) -> bool {
    &&& 0 <= k < ls.len()
    &&& covers(ls[k], px, py)
    &&& forall|j: int| 0 <= j < ls.len() && covers(#[trigger] ls[j], px, py) ==> below_or_same(ls[j], ls[k])
    &&& forall|j: int| k < j < ls.len() && covers(#[trigger] ls[j], px, py) ==> !below_or_same(ls[k], ls[j])
}

fn rank_of(k: LayerKind) -> (r: u8)
    ensures
        r == rank(k),
{
    match k {
        LayerKind::Background => 0,
        LayerKind::Bottom => 1,
        LayerKind::Top => 2,
        LayerKind::Overlay => 3,
    }
}

fn covers_exec(l: &LayerHit, px: i32, py: i32) -> (r: bool)
    ensures
        r == covers(*l, px, py),
{
    let x1: i64 = l.x as i64 + l.w as i64;
    let y1: i64 = l.y as i64 + l.h as i64;
    let x1: i64 = if x1 > 0x7FFF_FFFF { 0x7FFF_FFFF } else if x1 < -0x8000_0000 { -0x8000_0000 } else { x1 };
    let y1: i64 = if y1 > 0x7FFF_FFFF { 0x7FFF_FFFF } else if y1 < -0x8000_0000 { -0x8000_0000 } else { y1 };
    px >= l.x && (px as i64) < x1 && py >= l.y && (py as i64) < y1
}

fn below_or_same_exec(a: &LayerHit, b: &LayerHit) -> (r: bool)
    ensures
        r == below_or_same(*a, *b),
{
    let ra = rank_of(a.kind);
    let rb = rank_of(b.kind);
    ra < rb || (ra == rb && a.order <= b.order)
}

/// The layer surface under the pointer: the highest stacked one that
/// covers the point, the most recently mapped among equals (see
/// [`is_topmost`]); `None` when no surface covers it.
pub fn topmost_layer(layers: &Vec<LayerHit>, px: i32, py: i32) -> (r: Option<usize>)
    ensures
        match r {
            Some(k) => is_topmost(layers@, px, py, k as int),
            None => forall|j: int| 0 <= j < layers@.len() ==> !covers(#[trigger] layers@[j], px, py),
        },
{
    let mut best: Option<usize> = None;
    let mut i: usize = 0;
    while i < layers.len()
        invariant
            i <= layers@.len(),
            match best {
                Some(k) => {
                    &&& k < i
                    &&& covers(layers@[k as int], px, py)
                    &&& forall|j: int|
                        0 <= j < i && covers(#[trigger] layers@[j], px, py) ==> below_or_same(
                            layers@[j],
                            layers@[k as int],
                        )
                    &&& forall|j: int|
                        k < j < i && covers(#[trigger] layers@[j], px, py) ==> !below_or_same(
                            layers@[k as int],
                            layers@[j],
                        )
                },
                None => forall|j: int| 0 <= j < i ==> !covers(#[trigger] layers@[j], px, py),
            },
        decreases layers@.len() - i,
    {
        if covers_exec(&layers[i], px, py) {
            match best {
                Some(k) => {
                    if below_or_same_exec(&layers[k], &layers[i]) {
                        best = Some(i);
                    }
                },
                None => {
                    best = Some(i);
                },
            }
        }
        i = i + 1;
    }
    best
}

/// `a` is a higher layer than `b` in the fixed stacking order
/// Background, Bottom, Top, Overlay (bottom to top).
pub open spec fn higher_layer(a: LayerKind, b: LayerKind) -> bool {
    match (a, b) {
        (LayerKind::Overlay, LayerKind::Top) => true,
        (LayerKind::Overlay, LayerKind::Bottom) => true,
        (LayerKind::Overlay, LayerKind::Background) => true,
        (LayerKind::Top, LayerKind::Bottom) => true,
        (LayerKind::Top, LayerKind::Background) => true,
        (LayerKind::Bottom, LayerKind::Background) => true,
        _ => false,
    }
}

/// Law: the pointer hits a surface on the highest layer under it. When
/// surfaces of two different layers both cover the point, the one on the
/// higher layer wins, whatever order they were mapped in; among surfaces
/// of one layer the most recently mapped wins.
pub proof fn higher_layers_win(ls: Seq<LayerHit>, px: i32, py: i32, k: int, j: int)
    requires
        is_topmost(ls, px, py, k),
        0 <= j < ls.len(),
        covers(ls[j], px, py),
    ensures
        !higher_layer(ls[j].kind, ls[k].kind),
        ls[j].kind == ls[k].kind ==> ls[j].order <= ls[k].order,
        ls[j].kind == ls[k].kind && j > k ==> ls[j].order < ls[k].order,
{
}

} // verus!
