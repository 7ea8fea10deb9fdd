use entity_motion::vec2::Vec2;

#[test]
fn test_normalized_three_four_five() {
    let v = Vec2 { x: 3000, y: 4000 };
    assert_eq!(v.normalized(), Vec2 { x: 600, y: 800 });
}

#[test]
fn test_normalized_zero_stays_zero() {
    let v = Vec2 { x: 0, y: 0 };
    assert_eq!(v.normalized(), Vec2 { x: 0, y: 0 });
}

#[test]
fn test_normalized_negative_axis() {
    let v = Vec2 { x: -500, y: 0 };
    assert_eq!(v.normalized(), Vec2 { x: -1000, y: 0 });
}

#[test]
fn test_move_towards_partial_step() {
    let v = Vec2 { x: 0, y: 0 };
    let r = v.move_towards(Vec2 { x: 10_000, y: 0 }, 3000);
    assert_eq!(r, Vec2 { x: 3000, y: 0 });
}

#[test]
fn test_move_towards_reaches_target() {
    let v = Vec2 { x: 9000, y: 0 };
    let r = v.move_towards(Vec2 { x: 10_000, y: 0 }, 3000);
    assert_eq!(r, Vec2 { x: 10_000, y: 0 });
}

#[test]
fn test_move_towards_zero_step_stays() {
    let v = Vec2 { x: 123, y: -456 };
    let r = v.move_towards(Vec2 { x: 10_000, y: 10_000 }, 0);
    assert_eq!(r, v);
}

#[test]
fn test_scaled() {
    let v = Vec2 { x: -7, y: 3 };
    assert_eq!(v.scaled(120), Vec2 { x: -840, y: 360 });
}

#[test]
fn test_scaled_frac_rounds_toward_zero() {
    let v = Vec2 { x: -7, y: 7 };
    // Four fifths of 7 is 5.6: both coordinates round toward zero.
    assert_eq!(v.scaled_frac(4, 5), Vec2 { x: -5, y: 5 });
}
