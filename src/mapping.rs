//! The renderer's geometry: from a window of samples, a bounding rectangle and a
//! stroke width to the screen points of the chart.
//!
//! Every coordinate is the exact rational value of the scaling formula, truncated
//! toward zero, and then saturated to the range of `i32`. No floating point is
//! involved, so the same input gives the same pixels on every platform.
use embedded_graphics::prelude::Point;
use embedded_graphics::primitives::Rectangle;
use std::collections::VecDeque;
use vstd::arithmetic::div_mod::lemma_div_is_ordered_by_denominator;
use vstd::prelude::*;

verus! {

/// Smallest sample, folded from the left with `i32::MAX` as the start value.
pub open spec fn min_of(s: Seq<i32>) -> i32
    decreases s.len(),
{
    if s.len() == 0 {
        i32::MAX
    } else {
        let m = min_of(s.drop_last());
        if s.last() < m {
            s.last()
        } else {
            m
        }
    }
}

/// Largest sample, folded from the left with `i32::MIN` as the start value.
pub open spec fn max_of(s: Seq<i32>) -> i32
    decreases s.len(),
{
    if s.len() == 0 {
        i32::MIN
    } else {
        let m = max_of(s.drop_last());
        if s.last() > m {
            s.last()
        } else {
            m
        }
    }
}

/// `n / d` rounded toward zero (for `d > 0`).
pub open spec fn trunc_div(n: int, d: int) -> int {
    if n >= 0 {
        n / d
    } else {
        -((-n) / d)
    }
}

/// `v` clamped to the range of `i32`.
pub open spec fn saturate_i32(v: int) -> i32 {
    if v < i32::MIN {
        i32::MIN
    } else if v > i32::MAX {
        i32::MAX
    } else {
        v as i32
    }
}

/// The divisor of the vertical scale: the value range, or 1 for a flat signal.
pub open spec fn span(lo: i32, hi: i32) -> int {
    if hi == lo {
        1
    } else {
        hi - lo
    }
}

/// Column of sample `i` out of `n`: `left + (i * (width - 1)) / (n - 1)`, rounded
/// toward zero; the left edge when there are fewer than two samples.
pub open spec fn column(bbox: Rectangle, n: int, i: int) -> int {
    if n < 2 {
        bbox.top_left.x as int
    } else {
        bbox.top_left.x + trunc_div(i * (bbox.size.width - 1), n - 1)
    }
}

/// Row of sample value `v`:
/// `top + height - (v - lo) * (height - stroke) / span(lo, hi) - stroke / 2`,
/// computed exactly over the common denominator `2 * span` and rounded toward zero.
pub open spec fn row(bbox: Rectangle, stroke: u32, lo: i32, hi: i32, v: i32) -> int {
    let r = span(lo, hi);
    let h = bbox.size.height as int;
    trunc_div(
        2 * (r * (bbox.top_left.y + h)) - 2 * ((v - lo) * (h - stroke)) - r * stroke,
        2 * r,
    )
}

/// The screen point of sample `i`.
pub open spec fn point_at(values: Seq<i32>, bbox: Rectangle, stroke: u32, i: int) -> Point {
    Point {
        x: saturate_i32(column(bbox, values.len() as int, i)),
        y: saturate_i32(row(bbox, stroke, min_of(values), max_of(values), values[i])),
    }
}

/// The screen points of all samples, oldest first.
pub open spec fn plot(values: Seq<i32>, bbox: Rectangle, stroke: u32) -> Seq<Point> {
    Seq::new(values.len(), |i: int| point_at(values, bbox, stroke, i))
}

/// Number of segments drawn for `n` samples: one per neighbouring pair.
pub open spec fn segment_count(n: nat) -> nat {
    if n < 2 {
        0
    } else {
        (n - 1) as nat
    }
}

/// For a non-empty window the folded bounds are the true minimum and maximum:
/// each is one of the samples, and every sample lies between them.
pub proof fn lemma_bounds_are_extremes(s: Seq<i32>)
    requires
        s.len() > 0,
    ensures
        s.contains(min_of(s)),
        s.contains(max_of(s)),
        forall|i: int| 0 <= i < s.len() ==> min_of(s) <= #[trigger] s[i] <= max_of(s),
    decreases s.len(),
{
    let t = s.drop_last();
    if s.len() == 1 {
        assert(t.len() == 0);
        assert(s[0] == s.last());
    } else {
        lemma_bounds_are_extremes(t);
        assert forall|i: int| 0 <= i < s.len() implies min_of(s) <= #[trigger] s[i] <= max_of(
            s,
        ) by {
            if i < s.len() - 1 {
                assert(s[i] == t[i]);
            }
        }
        if min_of(s) != s.last() {
            let j = choose|j: int| 0 <= j < t.len() && t[j] == min_of(t);
            assert(s[j] == min_of(s));
        } else {
            assert(s[s.len() - 1] == min_of(s));
        }
        if max_of(s) != s.last() {
            let j = choose|j: int| 0 <= j < t.len() && t[j] == max_of(t);
            assert(s[j] == max_of(s));
        } else {
            assert(s[s.len() - 1] == max_of(s));
        }
    }
}

/// When all samples are equal, every point lies on one row: the bottom of the box
/// raised by half the stroke width.
pub proof fn lemma_flat_signal_is_level(values: Seq<i32>, bbox: Rectangle, stroke: u32)
    requires
        forall|i: int, j: int|
            0 <= i < values.len() && 0 <= j < values.len() ==> #[trigger] values[i]
                == #[trigger] values[j],
    ensures
        forall|i: int|
            0 <= i < values.len() ==> (#[trigger] plot(values, bbox, stroke)[i]).y
                == saturate_i32(
                trunc_div(2 * (bbox.top_left.y + bbox.size.height) - stroke, 2),
            ),
{
    if values.len() > 0 {
        lemma_bounds_are_extremes(values);
        assert forall|i: int| 0 <= i < values.len() implies (#[trigger] plot(
            values,
            bbox,
            stroke,
        )[i]).y == saturate_i32(trunc_div(2 * (bbox.top_left.y + bbox.size.height) - stroke, 2)) by {
            let k = choose|k: int| 0 <= k < values.len() && values[k] == min_of(values);
            assert(values[i] == values[k]);
            let m = max_of(values);
            let j = choose|j: int| 0 <= j < values.len() && values[j] == m;
            assert(values[j] == values[k]);
            assert(span(min_of(values), max_of(values)) == 1);
            assert(row(bbox, stroke, min_of(values), max_of(values), values[i]) == trunc_div(
                2 * (bbox.top_left.y + bbox.size.height) - stroke,
                2,
            ));
        }
    }
}

/// The points depend on the samples, the box and the stroke width alone: equal
/// inputs give equal points.
pub proof fn lemma_plot_is_deterministic(
    a: Seq<i32>,
    b: Seq<i32>,
    bbox_a: Rectangle,
    bbox_b: Rectangle,
    stroke_a: u32,
    stroke_b: u32,
)
    requires
        a == b,
        bbox_a == bbox_b,
        stroke_a == stroke_b,
    ensures
        plot(a, bbox_a, stroke_a) == plot(b, bbox_b, stroke_b),
{
}

/// Smallest and largest sample, in one pass; `(i32::MAX, i32::MIN)` when empty.
pub fn bounds(values: &VecDeque<i32>) -> (r: (i32, i32))
    ensures
        r.0 == min_of(values@),
        r.1 == max_of(values@),
{
    let n = values.len();
    let mut lo: i32 = i32::MAX;
    let mut hi: i32 = i32::MIN;
    let mut i: usize = 0;
    while i < n
        invariant
            n == values@.len(),
            i <= n,
            lo == min_of(values@.subrange(0, i as int)),
            hi == max_of(values@.subrange(0, i as int)),
        decreases n - i,
    {
        let v = values[i];
        assert(values@.subrange(0, i + 1).drop_last() =~= values@.subrange(0, i as int));
        if v < lo {
            lo = v;
        }
        if v > hi {
            hi = v;
        }
        i += 1;
    }
    assert(values@.subrange(0, n as int) =~= values@);
    (lo, hi)
}

fn trunc_div_exec(n: i128, d: i128) -> (q: i128)
    requires
        d >= 1,
        n > i128::MIN,
    ensures
        q == trunc_div(n as int, d as int),
        -n <= q <= n || n <= q <= -n,
{
    if n >= 0 {
        proof {
            lemma_div_is_ordered_by_denominator(n as int, 1, d as int);
        }
        n / d
    } else {
        proof {
            lemma_div_is_ordered_by_denominator(-n as int, 1, d as int);
        }
        -((-n) / d)
    }
}

fn saturate(v: i128) -> (r: i32)
    ensures
        r == saturate_i32(v as int),
{
    if v < i32::MIN as i128 {
        i32::MIN
    } else if v > i32::MAX as i128 {
        i32::MAX
    } else {
        v as i32
    }
}

fn column_exec(bbox: &Rectangle, n: usize, i: usize) -> (x: i32)
    requires
        i < n,
    ensures
        x == saturate_i32(column(*bbox, n as int, i as int)),
{
    if n < 2 {
        bbox.top_left.x
    } else {
        let w1: i128 = bbox.size.width as i128 - 1;
        let ii: i128 = i as i128;
        assert(-0x1_0000_0000_0000_0000 <= ii * w1 <= 0x1_0000_0000_0000_0000_0000_0000)
            by (nonlinear_arith)
            requires
                0 <= ii < 0x1_0000_0000_0000_0000,
                -1 <= w1 < 0x1_0000_0000,
        ;
        let off = trunc_div_exec(ii * w1, (n - 1) as i128);
        saturate(bbox.top_left.x as i128 + off)
    }
}

fn row_exec(bbox: &Rectangle, stroke: u32, lo: i32, hi: i32, v: i32) -> (y: i32)
    requires
        lo <= hi,
    ensures
        y == saturate_i32(row(*bbox, stroke, lo, hi, v)),
{
    let r: i128 = if hi == lo {
        1
    } else {
        hi as i128 - lo as i128
    };
    let top: i128 = bbox.top_left.y as i128 + bbox.size.height as i128;
    let dv: i128 = v as i128 - lo as i128;
    let scale: i128 = bbox.size.height as i128 - stroke as i128;
    let sw: i128 = stroke as i128;
    let b32: i128 = 0x1_0000_0000;
    assert(-4 * b32 * b32 <= r * top <= 4 * b32 * b32) by (nonlinear_arith)
        requires
            -b32 <= r <= b32,
            -2 * b32 <= top <= 2 * b32,
            b32 == 0x1_0000_0000,
    ;
    assert(-b32 * b32 <= dv * scale <= b32 * b32) by (nonlinear_arith)
        requires
            -b32 <= dv <= b32,
            -b32 <= scale <= b32,
            b32 == 0x1_0000_0000,
    ;
    assert(-b32 * b32 <= r * sw <= b32 * b32) by (nonlinear_arith)
        requires
            -b32 <= r <= b32,
            0 <= sw <= b32,
            b32 == 0x1_0000_0000,
    ;
    assert(b32 * b32 == 0x1_0000_0000_0000_0000);
    let num: i128 = 2 * (r * top) - 2 * (dv * scale) - r * sw;
    saturate(trunc_div_exec(num, 2 * r))
}

/// The screen points of `values` inside `bbox`, oldest sample first.
///
/// The smallest sample lands on the bottom of the box (less half the stroke width),
/// the largest on the top, and the samples are spread evenly from the left edge to
/// the right one. A flat signal is not scaled, and so never divides by zero.
pub fn plot_points(values: &VecDeque<i32>, bbox: &Rectangle, stroke_width: u32) -> (r: Vec<Point>)
    ensures
        r@ == plot(values@, *bbox, stroke_width),
{
    let (lo, hi) = bounds(values);
    let n = values.len();
    let mut pts: Vec<Point> = Vec::new();
    let mut i: usize = 0;
    while i < n
        invariant
            n == values@.len(),
            i <= n,
            lo == min_of(values@),
            hi == max_of(values@),
            pts@.len() == i,
            forall|j: int| 0 <= j < i ==> pts@[j] == point_at(values@, *bbox, stroke_width, j),
        decreases n - i,
    {
        proof {
            lemma_bounds_are_extremes(values@);
        }
        let x = column_exec(bbox, n, i);
        let y = row_exec(bbox, stroke_width, lo, hi, values[i]);
        pts.push(Point { x, y });
        i += 1;
    }
    assert(pts@ =~= plot(values@, *bbox, stroke_width));
    pts
}

} // verus!
