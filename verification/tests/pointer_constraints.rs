use wlrix_compositor::geometry::{Point, Rect, Size, Spot};
use wlrix_compositor::pointer_constraints::{
    adds_up_to, clamp_into, constrain, within, Constraint, Motion, RegionRect,
};

fn rect(x: i32, y: i32, w: i32, h: i32) -> Rect {
    Rect::new(Point { x, y }, Size { w, h })
}

fn add(r: Rect) -> RegionRect {
    RegionRect { add: true, rect: r }
}

fn subtract(r: Rect) -> RegionRect {
    RegionRect { add: false, rect: r }
}

fn spot(x: f64, y: f64) -> Spot {
    Spot { x: (x * 256.0) as i64, y: (y * 256.0) as i64 }
}

/// A spot measured from the surface's corner.
fn from_origin(x: f64, y: f64) -> Spot {
    spot(100.0 + x, 50.0 + y)
}

fn origin() -> Spot {
    spot(100.0, 50.0)
}

#[test]
fn a_movement_out_of_the_region_slides_along_the_edge() {
    let fence = [add(rect(0, 0, 200, 100))];
    // Heading right and down out of a 200x100 fence from inside it.
    let landed =
        clamp_into(&fence, origin(), from_origin(150.0, 40.0), from_origin(260.0, 70.0));
    // Held at the right edge, but the vertical part of the movement was allowed.
    assert_eq!(landed, from_origin(199.0, 70.0));
}

#[test]
fn a_movement_inside_the_region_is_untouched() {
    let fence = [add(rect(0, 0, 200, 100))];
    let wanted = from_origin(20.0, 30.0);
    assert_eq!(clamp_into(&fence, origin(), origin(), wanted), wanted);
}

#[test]
fn the_region_moves_with_its_surface() {
    let fence = [add(rect(0, 0, 200, 100))];
    let far = spot(3000.0, 700.0);
    let landed = clamp_into(&fence, far, spot(3010.0, 710.0), spot(3999.0, 710.0));
    assert_eq!(landed, spot(3199.0, 710.0));
}

#[test]
fn a_movement_into_a_subtracted_hole_is_refused() {
    let fence = [add(rect(0, 0, 200, 200)), subtract(rect(50, 50, 100, 100))];
    let start = from_origin(10.0, 10.0);
    let into_the_hole = from_origin(100.0, 100.0);
    assert_eq!(clamp_into(&fence, origin(), start, into_the_hole), start);
}

#[test]
fn an_empty_region_pins_the_pointer() {
    let fence = [subtract(rect(0, 0, 10, 10))];
    let start = from_origin(10.0, 10.0);
    assert_eq!(clamp_into(&fence, origin(), start, origin()), start);
    assert!(adds_up_to(&fence).is_none());
}

#[test]
fn the_bounding_box_covers_every_added_rectangle() {
    let fence = [add(rect(0, 0, 50, 50)), add(rect(100, 100, 50, 50))];
    assert_eq!(adds_up_to(&fence), Some(rect(0, 0, 150, 150)));
}

#[test]
fn a_constraint_without_a_region_covers_everything() {
    assert!(within(None, spot(-9000.0, 9000.0)));
}

#[test]
fn a_locked_motion_leaves_the_pointer_alone() {
    let here = spot(640.0, 480.0);
    assert_eq!(Motion::Locked.position(here), here);
    assert!(Motion::Locked.is_locked());
    let there = spot(1.0, 2.0);
    assert_eq!(Motion::To(there).position(here), there);
    assert!(!Motion::To(there).is_locked());
}

fn constraint(locked: bool, region: Option<Vec<RegionRect>>) -> Constraint {
    Constraint {
        locked,
        active: false,
        region,
        origin: Some(origin()),
        still_on_surface: false,
    }
}

#[test]
fn a_constraint_holds_only_inside_its_region() {
    let here = from_origin(10.0, 10.0);
    let away = from_origin(500.0, 500.0);
    assert_eq!(constrain(None, here, away), (Motion::To(away), false));
    let locked = constraint(true, None);
    assert_eq!(constrain(Some(&locked), here, away), (Motion::Locked, true));
    let fenced = constraint(true, Some(vec![add(rect(100, 100, 50, 50))]));
    assert_eq!(constrain(Some(&fenced), here, away), (Motion::To(away), false));
    // A confinement that named no region keeps the pointer on the surface.
    let mut confined = constraint(false, None);
    assert_eq!(constrain(Some(&confined), here, away), (Motion::To(here), true));
    confined.still_on_surface = true;
    confined.active = true;
    assert_eq!(constrain(Some(&confined), here, away), (Motion::To(away), false));
    // Chrome laid over the surface leaves nothing to be constrained by.
    confined.origin = None;
    assert_eq!(constrain(Some(&confined), here, away), (Motion::To(away), false));
}
