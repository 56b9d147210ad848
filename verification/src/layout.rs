use vstd::prelude::*;

use crate::geometry::Rect;

verus! {

/// A layout algorithm takes an available bounding rectangle and the number
/// of windows to arrange, and returns one rectangle per window.
pub trait Layout {
    /// The rectangles this layout gives `num_windows` windows in `area`.
    spec fn spec_apply(&self, area: Rect, num_windows: int) -> Seq<Rect>;

    /// The stable name of this layout.
    spec fn spec_name(&self) -> Seq<char>;

    /// The inputs on which this layout's arithmetic stays in range.
    spec fn accepts(&self, area: Rect, num_windows: int) -> bool;

    fn apply(&self, area: Rect, num_windows: usize) -> (rects: Vec<Rect>)
        requires
            self.accepts(area, num_windows as int),
        ensures
            rects@ == self.spec_apply(area, num_windows as int),
    ;

    /// Stable name used by session persistence to rebuild the layout.
    fn name(&self) -> (n: &'static str)
        ensures
            n@ == self.spec_name(),
    ;
}

/// Size of part `i` when `total` pixels are dealt into `n` parts: the
/// quotient, plus one spare pixel for each of the first `total % n` parts.
pub open spec fn part(total: int, n: int, i: int) -> int {
    total / n + if i < total % n { 1int } else { 0int }
}

/// Sum of the first `i` parts of `total` split into `n`.
pub open spec fn prefix(total: int, n: int, i: int) -> int {
    i * (total / n) + if i < total % n { i } else { total % n }
}

/// The parts of an even split of `total` into `n`.
pub open spec fn split_seq(total: int, n: int) -> Seq<u32> {
    Seq::new(n as nat, |i: int| part(total, n, i) as u32)
}

/// Each part starts where the previous one ended.
pub proof fn lemma_prefix_step(total: int, n: int, i: int)
    requires
        0 <= total,
        0 < n,
        0 <= i < n,
    ensures
        prefix(total, n, i + 1) == prefix(total, n, i) + part(total, n, i),
{
    assert((i + 1) * (total / n) == i * (total / n) + total / n) by (nonlinear_arith);
}

/// The parts of a split never exceed the total before the end.
pub proof fn lemma_prefix_bounds(total: int, n: int, i: int)
    requires
        0 <= total,
        0 < n,
        0 <= i <= n,
    ensures
        0 <= prefix(total, n, i) <= total,
        prefix(total, n, n) == total,
        0 <= part(total, n, i),
        i < n ==> prefix(total, n, i) + part(total, n, i) <= total,
{
    let b = total / n;
    let r = total % n;
    vstd::arithmetic::div_mod::lemma_fundamental_div_mod(total, n);
    assert(0 <= r < n) by {
        vstd::arithmetic::div_mod::lemma_remainder(total, n);
    }
    assert(0 <= b) by {
        vstd::arithmetic::div_mod::lemma_div_pos_is_pos(total, n);
    }
    assert(i * b <= n * b) by (nonlinear_arith)
        requires
            0 <= i <= n,
            0 <= b,
    ;
    assert(0 <= i * b) by (nonlinear_arith)
        requires
            0 <= i,
            0 <= b,
    ;
    assert(n * b == b * n) by (nonlinear_arith);
    if i < n {
        lemma_prefix_step(total, n, i);
        assert((i + 1) * b <= n * b) by (nonlinear_arith)
            requires
                0 <= i + 1 <= n,
                0 <= b,
        ;
    }
}

/// Law: an even split covers the total exactly, with no part differing
/// from another by more than one pixel.
pub proof fn split_is_exact(total: u32, n: usize)
    requires
        0 < n,
    ensures
        prefix(total as int, n as int, n as int) == total,
        forall|i: int, j: int|
            0 <= i < n && 0 <= j < n ==> part(total as int, n as int, i) - part(
                total as int,
                n as int,
                j,
            ) <= 1,
{
    lemma_prefix_bounds(total as int, n as int, n as int);
}

/// Splits `total` pixels into `n` parts that sum to exactly `total`.
///
/// Integer division truncates (`1080 / 7 = 154`, losing 2px); the leftover
/// is dealt one extra pixel to the first parts (`155, 155, 154, ...`) so no
/// gap is left at the area edge. Returns an empty vec for `n == 0`.
pub fn split_evenly(total: u32, n: usize) -> (parts: Vec<u32>)
    requires
        n <= u32::MAX,
    ensures
        n == 0 ==> parts@.len() == 0,
        n > 0 ==> parts@ == split_seq(total as int, n as int),
{
    if n == 0 {
        return Vec::new();
    }
    let nn: u32 = n as u32;
    let base: u32 = total / nn;
    let rem: u32 = total % nn;
    proof {
        vstd::arithmetic::div_mod::lemma_fundamental_div_mod(total as int, nn as int);
    }
    let mut parts: Vec<u32> = Vec::new();
    let mut i: usize = 0;
    while i < n
        invariant
            0 < n <= u32::MAX,
            nn == n,
            base == total / nn,
            rem == total % nn,
            i <= n,
            parts@.len() == i,
            forall|j: int| 0 <= j < i ==> parts@[j] == part(total as int, n as int, j) as u32,
        decreases n - i,
    {
        if (i as u32) < rem {
            assert(base < u32::MAX) by {
                vstd::arithmetic::div_mod::lemma_fundamental_div_mod(total as int, nn as int);
                assert(nn >= 2);
                assert(base * nn >= base * 2) by (nonlinear_arith)
                    requires
                        nn >= 2,
                ;
            }
            parts.push(base + 1);
        } else {
            parts.push(base);
        }
        i = i + 1;
    }
    assert(parts@ =~= split_seq(total as int, n as int));
    parts
}

} // verus!

verus! {

/// Bit pattern of the `f32` value 0.5, the default master ratio.
pub const DEFAULT_MASTER_RATIO_BITS: u32 = 0x3F00_0000u32;

/// Serializable layout description (name + parameters).
///
/// The master ratio of `MonadTall` is held as the IEEE-754 bit pattern of
/// its `f32` value (as given by `f32::to_bits`): the library computes on
/// integers only, and the caller turns the ratio into a master column
/// width before tiling.
#[derive(Debug, Clone, Copy, PartialEq, Eq, Structural)]
pub enum LayoutSpec {
    MonadTall { master_ratio_bits: u32, master_count: usize },
    Columns,
    Max,
}

impl LayoutSpec {
    /// The default layout: master/stack with one master at ratio 0.5.
    pub fn default() -> (s: LayoutSpec)
        ensures
            s == (LayoutSpec::MonadTall {
                master_ratio_bits: DEFAULT_MASTER_RATIO_BITS,
                master_count: 1,
            }),
    {
        LayoutSpec::MonadTall { master_ratio_bits: DEFAULT_MASTER_RATIO_BITS, master_count: 1 }
    }

    /// Stable name of the layout this spec describes.
    pub open spec fn spec_name(self) -> Seq<char> {
        match self {
            LayoutSpec::MonadTall { .. } => "monad_tall"@,
            LayoutSpec::Columns => "columns"@,
            LayoutSpec::Max => "max"@,
        }
    }

    /// Stable name of the layout this spec describes.
    pub fn name(&self) -> (n: &'static str)
        ensures
            n@ == self.spec_name(),
    {
        match self {
            LayoutSpec::MonadTall { .. } => "monad_tall",
            LayoutSpec::Columns => "columns",
            LayoutSpec::Max => "max",
        }
    }

    /// The canonical spec of a well-known layout name: the default
    /// master/stack spec for `"monad_tall"`, `Columns` for `"columns"`,
    /// `Max` for `"max"`, and `None` for any other name.
    pub open spec fn spec_from_name(name: Seq<char>) -> Option<LayoutSpec> {
        if name == "monad_tall"@ {
            Some(LayoutSpec::MonadTall { master_ratio_bits: DEFAULT_MASTER_RATIO_BITS, master_count: 1 })
        } else if name == "columns"@ {
            Some(LayoutSpec::Columns)
        } else if name == "max"@ {
            Some(LayoutSpec::Max)
        } else {
            None
        }
    }

    /// Canonical spec for a well-known layout name; `None` for unknown
    /// names (the caller decides the fallback).
    pub fn from_name(name: &str) -> (s: Option<LayoutSpec>)
        ensures
            s == LayoutSpec::spec_from_name(name@),
    {
        if crate::text::str_eq(name, "monad_tall") {
            Some(LayoutSpec::default())
        } else if crate::text::str_eq(name, "columns") {
            Some(LayoutSpec::Columns)
        } else if crate::text::str_eq(name, "max") {
            Some(LayoutSpec::Max)
        } else {
            None
        }
    }
}

/// Law: the name of a layout spec leads back to it: `Columns` and `Max`
/// exactly, a master/stack spec to the default master/stack spec (the
/// name does not carry its parameters).
pub proof fn name_roundtrip(s: LayoutSpec)
    ensures
        LayoutSpec::spec_from_name(s.spec_name()) == Some(
            match s {
                LayoutSpec::MonadTall { .. } => LayoutSpec::MonadTall {
                    master_ratio_bits: DEFAULT_MASTER_RATIO_BITS,
                    master_count: 1,
                },
                _ => s,
            },
        ),
{
    reveal_strlit("monad_tall");
    reveal_strlit("columns");
    reveal_strlit("max");
    assert("monad_tall"@.len() == 10);
    assert("columns"@.len() == 7);
    assert("max"@.len() == 3);
}

} // verus!
