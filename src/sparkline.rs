//! The chart: a sliding window of samples together with its drawing configuration.
use crate::mapping::{plot, plot_points, segment_count};
use embedded_graphics::prelude::Point;
use embedded_graphics::primitives::Rectangle;
use std::collections::VecDeque;
use vstd::prelude::*;

verus! {

/// The most recent `cap` elements of `s`, oldest first.
pub open spec fn window(s: Seq<i32>, cap: nat) -> Seq<i32> {
    if s.len() <= cap {
        s
    } else {
        s.subrange(s.len() - cap, s.len() as int)
    }
}

/// The window left by adding each sample of `added`, in order, to `start`.
pub open spec fn after_adds(start: Seq<i32>, cap: nat, added: Seq<i32>) -> Seq<i32>
    decreases added.len(),
{
    if added.len() == 0 {
        start
    } else {
        window(after_adds(start, cap, added.drop_last()).push(added.last()), cap)
    }
}

/// A sparkline: a bounded, chronological history of samples, drawn into a fixed
/// rectangle with a given color and stroke width. `draw_fn` builds the primitive
/// that joins two neighbouring points.
pub struct Sparkline<C, F> {
    /// The samples kept, oldest first.
    pub values: VecDeque<i32>,
    /// Where the chart is drawn.
    pub bbox: Rectangle,
    /// How many samples the chart keeps (and shows).
    pub max_samples: usize,
    /// Stroke color of the segments.
    pub color: C,
    /// Stroke width of the segments, in pixels.
    pub stroke_width: u32,
    /// Builds the primitive that joins two neighbouring points.
    pub draw_fn: F,
}

impl<C, F> Sparkline<C, F> {
    /// The window never outgrows a positive capacity.
    pub open spec fn wf(&self) -> bool {
        &&& self.max_samples > 0
        &&& self.values@.len() <= self.max_samples
    }

    /// The screen points of the current window.
    pub open spec fn spec_points(&self) -> Seq<Point> {
        plot(self.values@, self.bbox, self.stroke_width)
    }

    /// An empty chart keeping up to `max_samples` samples.
    pub fn new(bbox: Rectangle, max_samples: usize, color: C, stroke_width: u32, draw_fn: F) -> (r:
        Self)
        requires
            max_samples > 0,
        ensures
            r.wf(),
            r.values@ == Seq::<i32>::empty(),
            r.max_samples == max_samples,
            r.bbox == bbox,
            r.color == color,
            r.stroke_width == stroke_width,
            r.draw_fn == draw_fn,
    {
        Sparkline {
            values: VecDeque::with_capacity(max_samples),
            bbox,
            max_samples,
            color,
            stroke_width,
            draw_fn,
        }
    }

    /// Adds `val` as the newest sample, first evicting the oldest one when the
    /// window is full.
    pub fn add(&mut self, val: i32)
        requires
            old(self).wf(),
        ensures
            final(self).wf(),
            final(self).values@ == window(
                old(self).values@.push(val),
                old(self).max_samples as nat,
            ),
            final(self).max_samples == old(self).max_samples,
            final(self).bbox == old(self).bbox,
            final(self).color == old(self).color,
            final(self).stroke_width == old(self).stroke_width,
            final(self).draw_fn == old(self).draw_fn,
    {
        if self.values.len() == self.max_samples {
            self.values.pop_front();
        }
        self.values.push_back(val);
        assert(self.values@ =~= window(old(self).values@.push(val), old(self).max_samples as nat));
    }

    /// The screen points of the current window, oldest first.
    pub fn points(&self) -> (r: Vec<Point>)
        ensures
            r@ == self.spec_points(),
    {
        plot_points(&self.values, &self.bbox, self.stroke_width)
    }

    /// One primitive per pair of neighbouring points, left to right: the `k`-th joins
    /// point `k` to point `k + 1`. Fewer than two samples give none.
    pub fn primitives<P>(&self) -> (r: Vec<P>) where F: Fn(Point, Point) -> P
        requires
            forall|a: Point, b: Point| #[trigger] self.draw_fn.requires((a, b)),
        ensures
            r@.len() == segment_count(self.values@.len()),
            forall|k: int|
                0 <= k < r@.len() ==> self.draw_fn.ensures(
                    (self.spec_points()[k], self.spec_points()[k + 1]),
                    #[trigger] r@[k],
                ),
    {
        let pts = self.points();
        let mut out: Vec<P> = Vec::new();
        let mut k: usize = 1;
        while k < pts.len()
            invariant
                pts@ == self.spec_points(),
                pts@.len() == self.values@.len(),
                1 <= k,
                k <= pts@.len() || k == 1,
                out@.len() == k - 1,
                forall|a: Point, b: Point| #[trigger] self.draw_fn.requires((a, b)),
                forall|j: int|
                    0 <= j < out@.len() ==> self.draw_fn.ensures(
                        (pts@[j], pts@[j + 1]),
                        #[trigger] out@[j],
                    ),
            decreases pts@.len() - k,
        {
            let prim = (self.draw_fn)(pts[k - 1], pts[k]);
            out.push(prim);
            k += 1;
        }
        out
    }
}

/// The sliding window: after any sequence of additions to an empty chart of
/// capacity `cap`, the chart holds `min(additions, cap)` samples, and they are the
/// last `cap` added, in the order they were added.
pub proof fn lemma_sliding_window(cap: nat, added: Seq<i32>)
    requires
        cap > 0,
    ensures
        after_adds(Seq::empty(), cap, added) == window(added, cap),
        after_adds(Seq::empty(), cap, added).len() == if added.len() < cap {
            added.len()
        } else {
            cap
        },
    decreases added.len(),
{
    if added.len() > 0 {
        let prev = added.drop_last();
        lemma_sliding_window(cap, prev);
        assert(window(window(prev, cap).push(added.last()), cap) =~= window(added, cap));
    }
}

} // verus!
