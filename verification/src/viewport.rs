//! The window of the plane that a zoom frame shows, kept inside fixed bounds.
//!
//! The coordinates are of a type of the caller's choosing. The caller passes
//! the arithmetic as closures: `window(c, r)` is the interval of radius `r`
//! about `c`, `less(a, b)` tests `a < b`, and `moved(v, from, to)` is the
//! coordinate `v` shifted by the distance from `from` to `to`.

use vstd::prelude::*;
use crate::kernel::{computes2, computes3};

verus! {

/// A rectangle of the plane.
#[derive(Debug, PartialEq)]
pub struct ViewportRect<T> {
    pub x_min: T,
    pub x_max: T,
    pub y_min: T,
    pub y_max: T,
}

impl<T: Copy> Clone for ViewportRect<T> {
    fn clone(&self) -> (copy: Self)
        ensures
            copy == *self,
    {
        ViewportRect { x_min: self.x_min, x_max: self.x_max, y_min: self.y_min, y_max: self.y_max }
    }
}

impl<T: Copy> Copy for ViewportRect<T> {

}

/// `clamped` is the interval `window` after its correction against `bounds`.
/// A window that begins below the bounds is shifted so that it begins where
/// they begin. Otherwise a window that ends above the bounds is shifted so
/// that it ends where they end. Otherwise it stays. Only one side is ever
/// corrected.
pub open spec fn is_clamped<T, L: Fn(T, T) -> bool, M: Fn(T, T, T) -> T>(
    less: L,
    moved: M,
    window: (T, T),
    bounds: (T, T),
    clamped: (T, T),
) -> bool {
    ||| {
        &&& call_ensures(less, (window.0, bounds.0), true)
        &&& call_ensures(moved, (window.0, window.0, bounds.0), clamped.0)
        &&& call_ensures(moved, (window.1, window.0, bounds.0), clamped.1)
    }
    ||| {
        &&& call_ensures(less, (window.0, bounds.0), false)
        &&& call_ensures(less, (bounds.1, window.1), true)
        &&& call_ensures(moved, (window.0, window.1, bounds.1), clamped.0)
        &&& call_ensures(moved, (window.1, window.1, bounds.1), clamped.1)
    }
    ||| {
        &&& call_ensures(less, (window.0, bounds.0), false)
        &&& call_ensures(less, (bounds.1, window.1), false)
        &&& clamped == window
    }
}

/// The interval `window` after its correction against `bounds`, where the
/// comparison and the shift are the functions `less` and `moved`.
pub open spec fn clamped_window<T>(
    less: spec_fn(T, T) -> bool,
    moved: spec_fn(T, T, T) -> T,
    window: (T, T),
    bounds: (T, T),
) -> (T, T) {
    if less(window.0, bounds.0) {
        (moved(window.0, window.0, bounds.0), moved(window.1, window.0, bounds.0))
    } else if less(bounds.1, window.1) {
        (moved(window.0, window.1, bounds.1), moved(window.1, window.1, bounds.1))
    } else {
        window
    }
}

/// The closures accept every call that the correction of `window` against
/// `bounds` can make.
pub open spec fn accepts_window<T, L: Fn(T, T) -> bool, M: Fn(T, T, T) -> T>(
    less: L,
    moved: M,
    window: (T, T),
    bounds: (T, T),
) -> bool {
    &&& call_requires(less, (window.0, bounds.0))
    &&& call_requires(less, (bounds.1, window.1))
    &&& call_requires(moved, (window.0, window.0, bounds.0))
    &&& call_requires(moved, (window.1, window.0, bounds.0))
    &&& call_requires(moved, (window.0, window.1, bounds.1))
    &&& call_requires(moved, (window.1, window.1, bounds.1))
}

/// `view` is the square window of radius `radius` about `centre` after its
/// correction against `outer`: on each axis the interval about the centre's
/// coordinate, corrected against the bounds of that axis.
pub open spec fn is_viewport<
    T,
    W: Fn(T, T) -> (T, T),
    L: Fn(T, T) -> bool,
    M: Fn(T, T, T) -> T,
>(
    window: W,
    less: L,
    moved: M,
    centre: (T, T),
    radius: T,
    outer: ViewportRect<T>,
    view: ViewportRect<T>,
) -> bool {
    exists|across: (T, T), down: (T, T)|
        {
            &&& call_ensures(window, (centre.0, radius), across)
            &&& call_ensures(window, (centre.1, radius), down)
            &&& is_clamped(
                less,
                moved,
                across,
                (outer.x_min, outer.x_max),
                (view.x_min, view.x_max),
            )
            &&& is_clamped(less, moved, down, (outer.y_min, outer.y_max), (view.y_min, view.y_max))
        }
}

/// The closure `window` is exact under the valuation `value`: the interval
/// of radius `r` about `c` runs from `c - r` to `c + r`.
pub open spec fn exact_window<T, W: Fn(T, T) -> (T, T)>(
    window: W,
    value: spec_fn(T) -> int,
) -> bool {
    forall|c: T, r: T, w: (T, T)|
        call_ensures(window, (c, r), w) ==> value(w.0) == value(c) - value(r) && value(w.1)
            == value(c) + value(r)
}

/// The closures are exact under the valuation `value`: `less` compares the
/// values of its arguments, and `moved` adds to the value of its first
/// argument the difference between the values of its third and second.
pub open spec fn exact_arithmetic<T, L: Fn(T, T) -> bool, M: Fn(T, T, T) -> T>(
    less: L,
    moved: M,
    value: spec_fn(T) -> int,
) -> bool {
    &&& forall|a: T, b: T, r: bool|
        call_ensures(less, (a, b), r) ==> r == (value(a) < value(b))
    &&& forall|v: T, from: T, to: T, r: T|
        call_ensures(moved, (v, from, to), r) ==> value(r) == value(v) + value(to) - value(from)
}

/// Corrects the interval `window` against `bounds` on one axis, by a shift
/// and on one side only.
pub fn clamp_window<T: Copy, L: Fn(T, T) -> bool, M: Fn(T, T, T) -> T>(
    window: (T, T),
    bounds: (T, T),
    less: &L,
    moved: &M,
) -> (clamped: (T, T))
    requires
        accepts_window(*less, *moved, window, bounds),
    ensures
        is_clamped(*less, *moved, window, bounds, clamped),
{
    if less(window.0, bounds.0) {
        (moved(window.0, window.0, bounds.0), moved(window.1, window.0, bounds.0))
    } else if less(bounds.1, window.1) {
        (moved(window.0, window.1, bounds.1), moved(window.1, window.1, bounds.1))
    } else {
        window
    }
}

/// Corrects the rectangle `candidate` against `outer`, each axis on its own.
pub fn clamp_viewport<T: Copy, L: Fn(T, T) -> bool, M: Fn(T, T, T) -> T>(
    candidate: ViewportRect<T>,
    outer: ViewportRect<T>,
    less: L,
    moved: M,
) -> (view: ViewportRect<T>)
    requires
        accepts_window(
            less,
            moved,
            (candidate.x_min, candidate.x_max),
            (outer.x_min, outer.x_max),
        ),
        accepts_window(
            less,
            moved,
            (candidate.y_min, candidate.y_max),
            (outer.y_min, outer.y_max),
        ),
    ensures
        is_clamped(
            less,
            moved,
            (candidate.x_min, candidate.x_max),
            (outer.x_min, outer.x_max),
            (view.x_min, view.x_max),
        ),
        is_clamped(
            less,
            moved,
            (candidate.y_min, candidate.y_max),
            (outer.y_min, outer.y_max),
            (view.y_min, view.y_max),
        ),
{
    let (x_min, x_max) = clamp_window(
        (candidate.x_min, candidate.x_max),
        (outer.x_min, outer.x_max),
        &less,
        &moved,
    );
    let (y_min, y_max) = clamp_window(
        (candidate.y_min, candidate.y_max),
        (outer.y_min, outer.y_max),
        &less,
        &moved,
    );
    ViewportRect { x_min, x_max, y_min, y_max }
}

/// Computes the part of the plane that a frame shows: the square window of
/// radius `radius` about `centre`, shifted back inside `outer` where it
/// sticks out. The window is never rescaled, and on each axis only one side
/// is corrected.
pub fn compute_viewport<
    T: Copy,
    W: Fn(T, T) -> (T, T),
    L: Fn(T, T) -> bool,
    M: Fn(T, T, T) -> T,
>(
    centre: (T, T),
    radius: T,
    outer: ViewportRect<T>,
    window: W,
    less: L,
    moved: M,
) -> (view: ViewportRect<T>)
    requires
        call_requires(window, (centre.0, radius)),
        call_requires(window, (centre.1, radius)),
        forall|across: (T, T)| #[trigger]
            call_ensures(window, (centre.0, radius), across) ==> accepts_window(
                less,
                moved,
                across,
                (outer.x_min, outer.x_max),
            ),
        forall|down: (T, T)| #[trigger]
            call_ensures(window, (centre.1, radius), down) ==> accepts_window(
                less,
                moved,
                down,
                (outer.y_min, outer.y_max),
            ),
    ensures
        is_viewport(window, less, moved, centre, radius, outer, view),
{
    let across = window(centre.0, radius);
    let down = window(centre.1, radius);
    let candidate = ViewportRect { x_min: across.0, x_max: across.1, y_min: down.0, y_max: down.1 };
    clamp_viewport(candidate, outer, less, moved)
}

/// With closures that behave as functions the corrected interval is
/// determined. Correcting the same window twice therefore gives the same
/// interval.
pub proof fn lemma_clamp_determined<T, L: Fn(T, T) -> bool, M: Fn(T, T, T) -> T>(
    less: L,
    moved: M,
    less_than: spec_fn(T, T) -> bool,
    moved_to: spec_fn(T, T, T) -> T,
    window: (T, T),
    bounds: (T, T),
    clamped: (T, T),
)
    requires
        computes2(less, less_than),
        computes3(moved, moved_to),
        is_clamped(less, moved, window, bounds, clamped),
    ensures
        clamped == clamped_window(less_than, moved_to, window, bounds),
{
}

/// Under exact arithmetic the correction shifts and never rescales: the
/// clamped interval is as wide as the window.
pub proof fn lemma_clamp_preserves_width<T, L: Fn(T, T) -> bool, M: Fn(T, T, T) -> T>(
    less: L,
    moved: M,
    value: spec_fn(T) -> int,
    window: (T, T),
    bounds: (T, T),
    clamped: (T, T),
)
    requires
        exact_arithmetic(less, moved, value),
        is_clamped(less, moved, window, bounds, clamped),
    ensures
        value(clamped.1) - value(clamped.0) == value(window.1) - value(window.0),
{
}

/// Under exact arithmetic a window that is no wider than the bounds ends up
/// inside them. A wider window cannot, and keeps sticking out on one side.
pub proof fn lemma_clamp_stays_inside<T, L: Fn(T, T) -> bool, M: Fn(T, T, T) -> T>(
    less: L,
    moved: M,
    value: spec_fn(T) -> int,
    window: (T, T),
    bounds: (T, T),
    clamped: (T, T),
)
    requires
        exact_arithmetic(less, moved, value),
        is_clamped(less, moved, window, bounds, clamped),
        value(window.1) - value(window.0) <= value(bounds.1) - value(bounds.0),
    ensures
        value(bounds.0) <= value(clamped.0),
        value(clamped.1) <= value(bounds.1),
{
}

/// Under exact arithmetic the view of a frame keeps the size that was asked
/// for and still shows the centre, on each axis: the corrected interval is
/// twice the radius wide and holds the centre's coordinate, and it lies
/// inside the bounds unless the bounds are narrower than twice the radius.
pub proof fn lemma_view_keeps_size_and_centre<
    T,
    W: Fn(T, T) -> (T, T),
    L: Fn(T, T) -> bool,
    M: Fn(T, T, T) -> T,
>(
    window: W,
    less: L,
    moved: M,
    value: spec_fn(T) -> int,
    centre: T,
    radius: T,
    bounds: (T, T),
    around: (T, T),
    clamped: (T, T),
)
    requires
        exact_window(window, value),
        exact_arithmetic(less, moved, value),
        0 <= value(radius),
        value(bounds.0) <= value(centre) <= value(bounds.1),
        call_ensures(window, (centre, radius), around),
        is_clamped(less, moved, around, bounds, clamped),
    ensures
        value(clamped.1) - value(clamped.0) == 2 * value(radius),
        value(clamped.0) <= value(centre) <= value(clamped.1),
        2 * value(radius) <= value(bounds.1) - value(bounds.0) ==> value(bounds.0) <= value(
            clamped.0,
        ) && value(clamped.1) <= value(bounds.1),
{
}

} // verus!
