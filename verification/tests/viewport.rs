use fractory_rs::viewport::{clamp_viewport, clamp_window, compute_viewport};
use fractory_rs::ViewportRect;

fn window(c: f64, r: f64) -> (f64, f64) {
    (c - r, c + r)
}

fn less(a: f64, b: f64) -> bool {
    a < b
}

fn moved(v: f64, from: f64, to: f64) -> f64 {
    v + (to - from)
}

fn outer() -> ViewportRect<f64> {
    ViewportRect { x_min: -2.0, x_max: 0.47, y_min: -1.12, y_max: 1.12 }
}

/// The window of radius `1.235 / zoom` about `centre`, corrected against the
/// outer bounds.
fn frame_view(centre: (f64, f64), zoom: f64) -> ViewportRect<f64> {
    let radius: f64 = 1.235 * (1.0 / zoom);
    compute_viewport(centre, radius, outer(), window, less, moved)
}

fn exact_less(a: i64, b: i64) -> bool {
    a < b
}

fn exact_moved(v: i64, from: i64, to: i64) -> i64 {
    v + (to - from)
}

#[test]
fn window_inside_the_bounds_stays() {
    let view = frame_view((-0.77568377, 0.13646737), 1200.0);
    assert_eq!(
        view,
        ViewportRect {
            x_min: -0.7767129366666666,
            x_max: -0.7746546033333334,
            y_min: 0.13543820333333334,
            y_max: 0.13749653666666667,
        }
    );
}

#[test]
fn window_below_the_bounds_moves_up() {
    let view = frame_view((-2.0, 0.0), 2.0);
    assert_eq!(view.x_min, -2.0);
    assert_eq!(view.x_max, -0.7649999999999997);
    assert_eq!(view.y_min, -0.6175);
    assert_eq!(view.y_max, 0.6175);
}

#[test]
fn window_above_the_bounds_moves_down() {
    let view = frame_view((0.47, 1.12), 2.0);
    assert_eq!(view.x_min, -0.765);
    assert_eq!(view.x_max, 0.47);
    assert_eq!(view.y_min, -0.1150000000000001);
    assert_eq!(view.y_max, 1.12);
}

#[test]
fn corner_window_is_corrected_on_both_axes() {
    let view = frame_view((-2.0, -1.12), 4.0);
    assert_eq!(view, ViewportRect { x_min: -2.0, x_max: -1.3825, y_min: -1.12, y_max: -0.5025 });
}

#[test]
fn window_as_wide_as_the_bounds_fills_them() {
    // At zoom 1 the window is as wide as the bounds in x, up to rounding:
    // the corrected side lands on its bound, the other side next to its own.
    for x in [-2.0, -1.0] {
        let view = frame_view((x, 0.0), 1.0);
        assert_eq!(view.x_min, -2.0);
        assert!((view.x_max - 0.47).abs() < 1e-12);
    }
    for x in [0.0, 0.47] {
        let view = frame_view((x, 0.0), 1.0);
        assert_eq!(view.x_max, 0.47);
        assert!((view.x_min - -2.0).abs() < 1e-12);
    }
    assert_eq!(frame_view((-2.0, 0.0), 1.0).x_max, 0.4700000000000004);
}

#[test]
fn window_wider_than_the_bounds_sticks_out_above() {
    // At zoom 1 the window is higher than the bounds. Only its lower side is
    // corrected, and the upper side stays outside.
    let view = frame_view((0.0, 0.0), 1.0);
    assert_eq!(view.y_min, -1.12);
    assert_eq!(view.y_max, 1.35);
    assert!(view.y_max > outer().y_max);
}

#[test]
fn corrected_window_lies_inside_and_keeps_its_size() {
    let bounds = outer();
    for zoom in [2.0, 3.0, 10.0, 1200.0] {
        for centre in [(-2.0, -1.12), (-2.0, 1.12), (0.47, -1.12), (0.47, 1.12), (-0.5, 0.3)] {
            let view = frame_view(centre, zoom);
            assert!(view.x_min >= bounds.x_min && view.x_max <= bounds.x_max + 1e-12);
            assert!(view.y_min >= bounds.y_min && view.y_max <= bounds.y_max + 1e-12);
            let size = 2.0 * 1.235 * (1.0 / zoom);
            assert!(((view.x_max - view.x_min) - size).abs() < 1e-12);
            assert!(((view.y_max - view.y_min) - size).abs() < 1e-12);
        }
    }
}

#[test]
fn corrected_window_still_shows_the_centre() {
    for zoom in [1.0, 2.0, 10.0] {
        for centre in [(-2.0, -1.12), (-2.0, 1.12), (0.47, -1.12), (0.47, 1.12), (-0.5, 0.3)] {
            let view = frame_view(centre, zoom);
            assert!(view.x_min <= centre.0 && centre.0 <= view.x_max);
            assert!(view.y_min <= centre.1 && centre.1 <= view.y_max);
        }
    }
}

#[test]
fn window_is_square_about_the_centre() {
    let exact_window = |c: i64, r: i64| (c - r, c + r);
    let bounds = ViewportRect { x_min: -100i64, x_max: 100, y_min: -100, y_max: 100 };
    let view = compute_viewport((10i64, -20i64), 7, bounds, exact_window, exact_less, exact_moved);
    assert_eq!(view, ViewportRect { x_min: 3, x_max: 17, y_min: -27, y_max: -13 });
    let view = compute_viewport((95i64, -98i64), 7, bounds, exact_window, exact_less, exact_moved);
    assert_eq!(view, ViewportRect { x_min: 86, x_max: 100, y_min: -100, y_max: -86 });
}

#[test]
fn lower_side_is_corrected_first() {
    // Too low and too high at once: only the lower side is brought in.
    assert_eq!(clamp_window((-5i64, 25), (0, 10), &exact_less, &exact_moved), (0, 30));
}

#[test]
fn exact_windows() {
    assert_eq!(clamp_window((-5i64, 3), (0, 10), &exact_less, &exact_moved), (0, 8));
    assert_eq!(clamp_window((4i64, 12), (0, 10), &exact_less, &exact_moved), (2, 10));
    assert_eq!(clamp_window((2i64, 9), (0, 10), &exact_less, &exact_moved), (2, 9));
    assert_eq!(clamp_window((0i64, 10), (0, 10), &exact_less, &exact_moved), (0, 10));
    assert_eq!(clamp_window((3i64, 20), (0, 10), &exact_less, &exact_moved), (-7, 10));
}

#[test]
fn exact_windows_keep_their_width_and_end_up_inside() {
    for lo in -30i64..30 {
        for width in 0i64..=10 {
            let (a, b) = clamp_window((lo, lo + width), (0, 10), &exact_less, &exact_moved);
            assert_eq!(b - a, width);
            assert!(0 <= a && b <= 10);
        }
    }
}

#[test]
fn axes_are_corrected_independently() {
    let candidate = ViewportRect { x_min: -3i64, x_max: 1, y_min: 8, y_max: 13 };
    let bounds = ViewportRect { x_min: 0i64, x_max: 10, y_min: 0, y_max: 10 };
    let view = clamp_viewport(candidate, bounds, exact_less, exact_moved);
    assert_eq!(view, ViewportRect { x_min: 0, x_max: 4, y_min: 5, y_max: 10 });
}
