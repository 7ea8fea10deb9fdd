use entity_motion::bat::Bat;
use entity_motion::vec2::Vec2;

#[test]
fn test_new_bat_is_at_rest() {
    let bat = Bat::new();
    assert_eq!(bat.knockback, Vec2 { x: 0, y: 0 });
}

#[test]
fn test_knockback_decays_by_one_step() {
    let mut bat = Bat { knockback: Vec2 { x: 300_000, y: 0 } };

    // 0.6 s frame: the decay step is 200 * 0.6 = 120 units.
    bat._process(600);

    assert_eq!(bat.knockback, Vec2 { x: 180_000, y: 0 });
}

#[test]
fn test_knockback_within_step_reaches_rest() {
    let mut bat = Bat { knockback: Vec2 { x: 100_000, y: 0 } };

    bat._process(600);

    assert_eq!(bat.knockback, Vec2 { x: 0, y: 0 });
}

#[test]
fn test_knockback_decays_along_its_direction() {
    // A 3-4-5 triangle: length 150 units, so a 20-unit step takes exact
    // twentieths off both coordinates.
    let mut bat = Bat { knockback: Vec2 { x: 90_000, y: 120_000 } };

    bat._process(100);

    assert_eq!(bat.knockback, Vec2 { x: 78_000, y: 104_000 });
}

#[test]
fn test_knockback_at_rest_stays_at_rest() {
    let mut bat = Bat::new();

    bat._process(600);

    assert_eq!(bat.knockback, Vec2 { x: 0, y: 0 });
}

#[test]
fn test_hit_sets_knockback_from_sword_direction() {
    let mut bat = Bat::new();

    bat._on_Hurtbox_area_entered(Vec2 { x: 707, y: 707 });

    assert_eq!(bat.knockback, Vec2 { x: 84_840, y: 84_840 });
}

#[test]
fn test_physics_result_becomes_knockback() {
    let mut bat = Bat { knockback: Vec2 { x: 50_000, y: 0 } };

    // The engine slid along a wall and returned an adjusted vector.
    bat._physics_process(Vec2 { x: 50_000, y: -1000 });

    assert_eq!(bat.knockback, Vec2 { x: 50_000, y: -1000 });
}
