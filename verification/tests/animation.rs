use compositor::animation::{lerp, PointAnim, ScalarAnim};

#[test]
fn settled_animation_reports_no_flight() {
    let a = ScalarAnim::new_settled(2500);
    assert_eq!(a.current(), 2500);
    assert_eq!(a.destination(), 2500);
    assert!(!a.is_animating());
}

#[test]
fn advance_converges_exactly_when_time_adds_up() {
    // Animation convergence: slices of dt totalling the duration land
    // the value exactly on the destination.
    let mut a = ScalarAnim::new_settled(0);
    a.set_destination(1000);
    assert!(a.is_animating());
    let mut still = true;
    for _ in 0..10 {
        still = a.advance(10, 100);
    }
    assert!(!still);
    assert!(!a.is_animating());
    assert_eq!(a.current(), 1000);
}

#[test]
fn advance_converges_with_uneven_slices() {
    let mut a = ScalarAnim::new_settled(-500);
    a.set_destination(700);
    a.advance(33, 150);
    a.advance(49, 150);
    a.advance(1, 150);
    let still = a.advance(10_000, 150);
    assert!(!still);
    assert_eq!(a.current(), 700);
}

#[test]
fn advance_reports_not_in_flight_thereafter() {
    let mut a = ScalarAnim::new_settled(0);
    a.set_destination(300);
    assert!(!a.advance(500, 100));
    assert!(!a.advance(10, 100));
    assert_eq!(a.current(), 300);
}

#[test]
fn repeated_destination_does_not_restart() {
    // No-restart-on-repeat: with 100 ms still to run, a second call
    // with the identical destination must not reset progress; the
    // remaining 50 ms then finish the animation.  A restart would
    // leave it mid-flight.
    let mut a = ScalarAnim::new_settled(0);
    a.set_destination(1000);
    a.advance(50, 100);
    let halfway = a.current();
    a.set_destination(1000);
    assert_eq!(a.current(), halfway);
    let still = a.advance(50, 100);
    assert!(!still);
    assert_eq!(a.current(), 1000);
}

#[test]
fn changed_destination_does_restart() {
    let mut a = ScalarAnim::new_settled(0);
    a.set_destination(1000);
    a.advance(50, 100);
    a.set_destination(2000);
    assert!(a.is_animating());
    // A fresh animation: 50 more milliseconds are not enough now.
    let still = a.advance(50, 100);
    assert!(still);
    let done = a.advance(50, 100);
    assert!(!done);
    assert_eq!(a.current(), 2000);
}

#[test]
fn ease_out_midpoint_value() {
    // At half time the ease-out quadratic has covered three quarters
    // of the distance: 1000 * (50 * (200 - 50)) / (100 * 100) = 750.
    assert_eq!(lerp(0, 1000, 50, 100), 750);
    assert_eq!(lerp(0, 1000, 0, 100), 0);
    assert_eq!(lerp(0, 1000, 100, 100), 1000);
}

#[test]
fn lerp_is_exact_downhill_too() {
    assert_eq!(lerp(1000, 0, 50, 100), 250);
    assert_eq!(lerp(500, -500, 100, 100), -500);
    assert_eq!(lerp(-200, -200, 30, 100), -200);
}

#[test]
fn point_animation_moves_both_axes_together() {
    let mut p = PointAnim::new_settled(0, 0);
    p.set_destination(1000, 2000);
    let still = p.advance(100, 100);
    assert!(!still);
    assert_eq!(p.current(), (1000, 2000));
}

#[test]
fn point_repeat_of_same_pair_is_ignored() {
    let mut p = PointAnim::new_settled(0, 0);
    p.set_destination(1000, 2000);
    p.advance(50, 100);
    let mid = p.current();
    p.set_destination(1000, 2000);
    assert_eq!(p.current(), mid);
    assert!(!p.advance(50, 100));
    assert_eq!(p.current(), (1000, 2000));
}

#[test]
fn point_change_in_one_axis_restarts_both() {
    let mut p = PointAnim::new_settled(0, 0);
    p.set_destination(1000, 2000);
    p.advance(50, 100);
    // Only the y destination changes; both axes restart from their
    // current spot and share the fresh progress clock.
    p.set_destination(1000, 3000);
    assert!(p.advance(50, 100));
    assert!(!p.advance(50, 100));
    assert_eq!(p.current(), (1000, 3000));
}
