use fractory_rs::frames::{make_zoom_frames, Frame, FrameKind};
use fractory_rs::NormalizedValue;

fn ramp(number: u32) -> Frame {
    Frame { number, kind: FrameKind::IterationRamp { iterations: number } }
}

fn zoom(number: u32, step: u32, steps: u32, base_iterations: u32) -> Frame {
    let exponent = NormalizedValue { numerator: step, denominator: steps };
    Frame { number, kind: FrameKind::ZoomRamp { exponent, base_iterations } }
}

/// The zoom of a frame: the greatest zoom to the power of the frame's exponent.
fn zoom_of(kind: FrameKind, max_zoom: f64) -> f64 {
    match kind {
        FrameKind::IterationRamp { .. } => 1.0,
        FrameKind::ZoomRamp { exponent, .. } => {
            ((exponent.numerator as f64) / (exponent.denominator as f64) * max_zoom.ln()).exp()
        }
    }
}

#[test]
fn plan_has_both_phases_in_order() {
    let frames = make_zoom_frames(4, 3);
    assert_eq!(
        frames,
        vec![ramp(1), ramp(2), ramp(3), zoom(4, 0, 3, 4), zoom(5, 1, 3, 4), zoom(6, 2, 3, 4)]
    );
}

#[test]
fn frames_are_numbered_without_gaps() {
    let frames = make_zoom_frames(50, 120);
    assert_eq!(frames.len(), 49 + 120);
    assert_eq!(frames[0].number, 1);
    for k in 1..frames.len() {
        assert_eq!(frames[k].number, frames[k - 1].number + 1);
    }
    assert_eq!(frames[frames.len() - 1].number, 169);
}

#[test]
fn ramp_is_empty_for_small_budgets() {
    assert_eq!(make_zoom_frames(1, 2), vec![zoom(1, 0, 2, 1), zoom(2, 1, 2, 1)]);
    assert_eq!(make_zoom_frames(0, 2), vec![zoom(0, 0, 2, 0), zoom(1, 1, 2, 0)]);
}

#[test]
fn empty_plans() {
    assert_eq!(make_zoom_frames(0, 0), vec![]);
    assert_eq!(make_zoom_frames(1, 0), vec![]);
    assert_eq!(make_zoom_frames(3, 0), vec![ramp(1), ramp(2)]);
}

#[test]
fn ramp_frames_take_their_number_as_budget() {
    for frame in make_zoom_frames(10, 0) {
        assert_eq!(frame.iterations(1), Some(frame.number));
        assert_eq!(frame.iterations(999), Some(frame.number));
    }
}

#[test]
fn zoom_frames_add_the_whole_part_of_the_zoom() {
    let frame = zoom(7, 3, 10, 500);
    assert_eq!(frame.iterations(1), Some(501));
    assert_eq!(frame.iterations(1200), Some(1700));
    assert_eq!(frame.iterations(0), Some(500));
}

#[test]
fn budget_that_does_not_fit_is_refused() {
    let frame = zoom(7, 3, 10, u32::MAX - 5);
    assert_eq!(frame.iterations(5), Some(u32::MAX));
    assert_eq!(frame.iterations(6), None);
    assert_eq!(zoom(0, 0, 1, u32::MAX).iterations(u32::MAX), None);
}

#[test]
fn zoom_grows_geometrically() {
    let frames = make_zoom_frames(1, 4);
    let zooms: Vec<f64> = frames.iter().map(|frame| zoom_of(frame.kind, 16.0)).collect();
    assert_eq!(zooms[0], 1.0);
    for (zoom, expected) in zooms.iter().zip([1.0, 2.0, 4.0, 8.0]) {
        assert!((zoom - expected).abs() < 1e-12);
    }
    let budgets: Vec<Option<u32>> = frames
        .iter()
        .zip([1u32, 2, 4, 8])
        .map(|(frame, floor)| frame.iterations(floor))
        .collect();
    assert_eq!(budgets, vec![Some(2), Some(3), Some(5), Some(9)]);
}

#[test]
fn zoom_phase_starts_at_the_base_budget() {
    let frames = make_zoom_frames(0, 3);
    assert_eq!(frames[0].number, 0);
    assert_eq!(frames[2], zoom(2, 2, 3, 0));
    let frames = make_zoom_frames(1, u32::MAX - 1 - (u32::MAX - 3));
    assert_eq!(frames, vec![zoom(1, 0, 2, 1), zoom(2, 1, 2, 1)]);
}
