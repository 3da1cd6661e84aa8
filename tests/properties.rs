use embedded_graphics::pixelcolor::BinaryColor;
use embedded_graphics::prelude::{Point, Size};
use embedded_graphics::primitives::{Line, Rectangle};
use embedded_graphics_sparklines::{bounds, plot_points, Sparkline};
use std::collections::VecDeque;

fn chart(
    bbox: Rectangle,
    max_samples: usize,
    stroke_width: u32,
    samples: &[i32],
) -> Sparkline<BinaryColor, impl Fn(Point, Point) -> Line> {
    let mut sparkline = Sparkline::new(
        bbox,
        max_samples,
        BinaryColor::On,
        stroke_width,
        |a, b| Line::new(a, b),
    );
    for &v in samples {
        sparkline.add(v);
    }
    sparkline
}

fn boxed(x: i32, y: i32, w: u32, h: u32) -> Rectangle {
    Rectangle::new(Point::new(x, y), Size::new(w, h))
}

fn contents<C, F>(sparkline: &Sparkline<C, F>) -> Vec<i32> {
    sparkline.values.iter().copied().collect()
}

#[test]
fn new_chart_is_empty() {
    let sparkline = chart(boxed(0, 0, 16, 5), 4, 1, &[]);
    assert_eq!(sparkline.values.len(), 0);
    assert_eq!(sparkline.max_samples, 4);
    assert_eq!(sparkline.stroke_width, 1);
    assert_eq!(sparkline.bbox, boxed(0, 0, 16, 5));
    assert_eq!(sparkline.color, BinaryColor::On);
}

#[test]
fn capacity_overflow_keeps_newest() {
    let sparkline = chart(boxed(0, 0, 16, 5), 3, 1, &[10, 20, 30, 40]);
    assert_eq!(contents(&sparkline), vec![20, 30, 40]);
}

#[test]
fn window_length_follows_additions() {
    let mut sparkline = chart(boxed(0, 0, 16, 5), 3, 1, &[]);
    let added = [5, -1, 8, 3, 3, 9, i32::MIN, i32::MAX];
    for (n, &v) in added.iter().enumerate() {
        sparkline.add(v);
        let total = n + 1;
        assert_eq!(sparkline.values.len(), total.min(3));
        let start = total.saturating_sub(3);
        assert_eq!(contents(&sparkline), added[start..total].to_vec());
    }
}

#[test]
fn capacity_one_keeps_last_sample() {
    let sparkline = chart(boxed(0, 0, 16, 5), 1, 1, &[1, 2, 3]);
    assert_eq!(contents(&sparkline), vec![3]);
}

#[test]
fn bounds_are_min_and_max() {
    let values: VecDeque<i32> = vec![3, -7, 12, 0, 12, -7].into_iter().collect();
    assert_eq!(bounds(&values), (-7, 12));
    let single: VecDeque<i32> = vec![42].into_iter().collect();
    assert_eq!(bounds(&single), (42, 42));
    let extremes: VecDeque<i32> = vec![i32::MAX, i32::MIN].into_iter().collect();
    assert_eq!(bounds(&extremes), (i32::MIN, i32::MAX));
}

#[test]
fn bounds_of_nothing_are_the_fold_start() {
    let empty: VecDeque<i32> = VecDeque::new();
    assert_eq!(bounds(&empty), (i32::MAX, i32::MIN));
}

#[test]
fn linear_ramp_spans_the_box() {
    let sparkline = chart(boxed(0, 0, 5, 5), 5, 1, &[0, 1, 2, 3, 4]);
    let points = sparkline.points();
    assert_eq!(
        points,
        vec![
            Point::new(0, 4),
            Point::new(1, 3),
            Point::new(2, 2),
            Point::new(3, 1),
            Point::new(4, 0),
        ]
    );
    let segments = sparkline.primitives();
    assert_eq!(segments.len(), 4);
    for (k, line) in segments.iter().enumerate() {
        assert_eq!(*line, Line::new(points[k], points[k + 1]));
    }
}

#[test]
fn flat_batch_is_level() {
    let sparkline = chart(boxed(3, 2, 10, 6), 8, 2, &[7, 7, 7, 7]);
    let points = sparkline.points();
    assert_eq!(
        points,
        vec![
            Point::new(3, 7),
            Point::new(6, 7),
            Point::new(9, 7),
            Point::new(12, 7),
        ]
    );
    assert_eq!(sparkline.primitives().len(), 3);
}

#[test]
fn flat_batch_in_other_box_is_level() {
    let sparkline = chart(boxed(-4, 10, 7, 1), 8, 3, &[-9, -9, -9, -9, -9]);
    let points = sparkline.points();
    assert!(points.iter().all(|p| p.y == points[0].y));
    // 10 + 1 - 3 / 2 = 9.5, truncated toward zero
    assert_eq!(points[0].y, 9);
}

#[test]
fn too_few_samples_give_no_segments() {
    let empty = chart(boxed(0, 0, 16, 5), 4, 1, &[]);
    assert_eq!(empty.primitives().len(), 0);
    assert_eq!(empty.points().len(), 0);
    let single = chart(boxed(2, 3, 16, 5), 4, 1, &[9]);
    assert_eq!(single.primitives().len(), 0);
    assert_eq!(single.points(), vec![Point::new(2, 7)]);
}

#[test]
fn rendering_twice_is_identical() {
    let a = chart(boxed(1, 1, 20, 9), 6, 2, &[4, -2, 9, 9, 0, 7, 3]);
    let b = chart(boxed(1, 1, 20, 9), 6, 2, &[4, -2, 9, 9, 0, 7, 3]);
    assert_eq!(a.primitives(), a.primitives());
    assert_eq!(a.primitives(), b.primitives());
    assert_eq!(a.points(), b.points());
}

#[test]
fn fractional_coordinates_truncate_toward_zero() {
    // width 16 over 9 gaps: 15 * i / 9; height 5, stroke 1, values 0..=9
    let samples: Vec<i32> = (0..10).collect();
    let values: VecDeque<i32> = samples.iter().copied().collect();
    let points = plot_points(&values, &boxed(0, 0, 16, 5), 1);
    let xs: Vec<i32> = points.iter().map(|p| p.x).collect();
    assert_eq!(xs, vec![0, 1, 3, 5, 6, 8, 10, 11, 13, 15]);
    // y = 5 - v * 4 / 9 - 1 / 2
    let ys: Vec<i32> = points.iter().map(|p| p.y).collect();
    assert_eq!(ys, vec![4, 4, 3, 3, 2, 2, 1, 1, 0, 0]);
}

#[test]
fn negative_coordinates_truncate_toward_zero() {
    // top -10, height 4, stroke 3: y = -6 - v * 1 / 2 - 1.5
    let values: VecDeque<i32> = vec![0, 1, 2].into_iter().collect();
    let points = plot_points(&values, &boxed(-3, -10, 3, 4), 3);
    assert_eq!(
        points,
        vec![Point::new(-3, -7), Point::new(-2, -8), Point::new(-1, -8)]
    );
}

#[test]
fn extreme_samples_stay_in_range() {
    let sparkline = chart(boxed(0, 0, 16, 5), 4, 1, &[i32::MIN, i32::MAX]);
    assert_eq!(sparkline.points(), vec![Point::new(0, 4), Point::new(15, 0)]);
}

#[test]
fn huge_box_saturates() {
    let values: VecDeque<i32> = vec![0, 1].into_iter().collect();
    let points = plot_points(&values, &boxed(i32::MAX, i32::MAX, u32::MAX, u32::MAX), 0);
    assert_eq!(points, vec![Point::new(i32::MAX, i32::MAX), Point::new(i32::MAX, i32::MAX)]);
}
