use entity_motion::player::{Animation, Player, State};
use entity_motion::sword_hitbox::SwordHitbox;
use entity_motion::vec2::Vec2;

#[test]
fn test_move_nothing() {
    let mut player = Player::default();
    let mut hitbox = SwordHitbox::default();

    let input = player.get_movement_input(0, 0, 0, 0);
    player.move_on_input(input, 600, &mut hitbox);

    assert_eq!(player.velocity, Vec2 { x: 0, y: 0 });
}

#[test]
fn test_move_right() {
    let mut player = Player::default();
    let mut hitbox = SwordHitbox::default();

    let input = player.get_movement_input(1000, 0, 0, 0);
    player.move_on_input(input, 600, &mut hitbox);

    assert_eq!(player.velocity, Vec2 { x: 80_000, y: 0 });
}

#[test]
fn test_move_left() {
    let mut player = Player::default();
    let mut hitbox = SwordHitbox::default();

    let input = player.get_movement_input(0, 1000, 0, 0);
    player.move_on_input(input, 600, &mut hitbox);

    assert_eq!(player.velocity, Vec2 { x: -80_000, y: 0 });
}

#[test]
fn test_move_down() {
    let mut player = Player::default();
    let mut hitbox = SwordHitbox::default();

    let input = player.get_movement_input(0, 0, 1000, 0);
    player.move_on_input(input, 600, &mut hitbox);

    assert_eq!(player.velocity, Vec2 { x: 0, y: 80_000 });
}

#[test]
fn test_move_up() {
    let mut player = Player::default();
    let mut hitbox = SwordHitbox::default();

    let input = player.get_movement_input(0, 0, 0, 1000);
    player.move_on_input(input, 600, &mut hitbox);

    assert_eq!(player.velocity, Vec2 { x: 0, y: -80_000 });
}

#[test]
fn test_move_diagonal() {
    let mut player = Player::default();
    let mut hitbox = SwordHitbox::default();

    // (1000, 1000) normalizes to (707, 707); times top speed 80 that is
    // (56_560, 56_560), reached in one step of 500 * 0.6 = 300 units.
    let input = player.get_movement_input(1000, 0, 1000, 0);
    assert_eq!(input, Vec2 { x: 707, y: 707 });
    player.move_on_input(input, 600, &mut hitbox);

    assert_eq!(player.velocity, Vec2 { x: 56_560, y: 56_560 });
}

#[test]
fn test_gradual_acceleration_toward_max_speed() {
    let mut player = Player::default();
    let mut hitbox = SwordHitbox::default();

    // 0.1 s frames: each step is 500 * 0.1 = 50 units, top speed is 80.
    let input = player.get_movement_input(1000, 0, 0, 0);
    player.move_on_input(input, 100, &mut hitbox);
    assert_eq!(player.velocity, Vec2 { x: 50_000, y: 0 });
    player.move_on_input(input, 100, &mut hitbox);
    assert_eq!(player.velocity, Vec2 { x: 80_000, y: 0 });
    player.move_on_input(input, 100, &mut hitbox);
    assert_eq!(player.velocity, Vec2 { x: 80_000, y: 0 });
}

#[test]
fn test_off_axis_velocity_turns_toward_input() {
    // Sliding downward at 50 units while holding right: the frame moves the
    // velocity 50 units along the straight line toward (80, 0).
    let mut player = Player {
        velocity: Vec2 { x: 0, y: 50_000 },
        state: State::Move,
        roll_vector: Vec2 { x: 0, y: 1000 },
    };
    let mut hitbox = SwordHitbox::default();

    let input = player.get_movement_input(1000, 0, 0, 0);
    player.move_on_input(input, 100, &mut hitbox);

    assert_eq!(player.velocity, Vec2 { x: 42_400, y: 23_500 });
}

#[test]
fn test_friction_brakes_to_rest() {
    let mut player = Player {
        velocity: Vec2 { x: 80_000, y: 0 },
        state: State::Move,
        roll_vector: Vec2 { x: 1000, y: 0 },
    };
    let mut hitbox = SwordHitbox::default();

    let input = player.get_movement_input(0, 0, 0, 0);
    player.move_on_input(input, 100, &mut hitbox);
    assert_eq!(player.velocity, Vec2 { x: 30_000, y: 0 });
    player.move_on_input(input, 100, &mut hitbox);
    assert_eq!(player.velocity, Vec2 { x: 0, y: 0 });
}

#[test]
fn test_process_move_frame_updates_everything() {
    let mut player = Player::new();
    let mut hitbox = SwordHitbox::default();

    let cmd = player._process(1000, 0, 0, 0, false, false, 600, &mut hitbox);

    assert_eq!(player.velocity, Vec2 { x: 80_000, y: 0 });
    assert_eq!(player.state, State::Move);
    assert_eq!(player.roll_vector, Vec2 { x: 1000, y: 0 });
    assert_eq!(hitbox.knockback_vector, Vec2 { x: 1000, y: 0 });
    assert_eq!(cmd.travel, Animation::Run);
    assert_eq!(cmd.blend_position, Some(Vec2 { x: 1000, y: 0 }));
}

#[test]
fn test_process_idle_frame() {
    let mut player = Player::new();
    let mut hitbox = SwordHitbox::default();

    let cmd = player._process(0, 0, 0, 0, false, false, 600, &mut hitbox);

    assert_eq!(player.velocity, Vec2 { x: 0, y: 0 });
    assert_eq!(cmd.travel, Animation::Idle);
    assert_eq!(cmd.blend_position, None);
}

#[test]
fn test_attack_press_then_finish() {
    let mut player = Player::new();
    let mut hitbox = SwordHitbox::default();

    player._process(0, 0, 0, 0, true, false, 600, &mut hitbox);
    assert_eq!(player.state, State::Attack);

    let cmd = player._process(1000, 0, 0, 0, false, false, 600, &mut hitbox);
    assert_eq!(cmd.travel, Animation::Attack);
    assert_eq!(player.velocity, Vec2 { x: 0, y: 0 });

    player.attack_animation_finished();
    assert_eq!(player.state, State::Move);
}

#[test]
fn test_roll_press_wins_over_attack_press() {
    let mut player = Player::new();
    let mut hitbox = SwordHitbox::default();

    player._process(0, 0, 0, 0, true, true, 600, &mut hitbox);

    assert_eq!(player.state, State::Roll);
}

#[test]
fn test_roll_pins_velocity_and_finish_scales_it() {
    let mut player = Player::new();
    let mut hitbox = SwordHitbox::default();

    // Aim right, then press roll.
    player._process(1000, 0, 0, 0, false, true, 600, &mut hitbox);
    assert_eq!(player.state, State::Roll);

    // A rolling frame pins the velocity to roll speed along the aim.
    let cmd = player._process(0, 0, 0, 0, false, false, 600, &mut hitbox);
    assert_eq!(cmd.travel, Animation::Roll);
    assert_eq!(player.velocity, Vec2 { x: 120_000, y: 0 });

    // Finishing the roll keeps four fifths of the velocity.
    player.roll_animation_finished();
    assert_eq!(player.state, State::Move);
    assert_eq!(player.velocity, Vec2 { x: 96_000, y: 0 });
}

#[test]
fn test_roll_finish_scales_negative_velocity_toward_zero() {
    let mut player = Player {
        velocity: Vec2 { x: 100_000, y: -50_000 },
        state: State::Roll,
        roll_vector: Vec2 { x: 0, y: -1000 },
    };

    player.roll_animation_finished();

    assert_eq!(player.velocity, Vec2 { x: 80_000, y: -40_000 });
    assert_eq!(player.state, State::Move);
}

#[test]
fn test_physics_tick_takes_slide_result() {
    let mut player = Player::new();

    assert_eq!(player.physics_velocity(), Some(Vec2 { x: 0, y: 0 }));
    player._physics_process(Some(Vec2 { x: 5000, y: -2000 }));
    assert_eq!(player.velocity, Vec2 { x: 5000, y: -2000 });
}

#[test]
fn test_physics_tick_halts_during_attack() {
    let mut player = Player {
        velocity: Vec2 { x: 80_000, y: 0 },
        state: State::Attack,
        roll_vector: Vec2 { x: 1000, y: 0 },
    };

    assert_eq!(player.physics_velocity(), None);
    player._physics_process(None);
    assert_eq!(player.velocity, Vec2 { x: 0, y: 0 });
    assert_eq!(player.state, State::Attack);
}

#[test]
fn test_new_player_faces_down() {
    let player = Player::new();

    assert_eq!(player.velocity, Vec2 { x: 0, y: 0 });
    assert_eq!(player.state, State::Move);
    assert_eq!(player.roll_vector, Vec2 { x: 0, y: 1000 });
}
