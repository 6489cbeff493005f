use input_manager::Axis;
use input_manager::AxisChange;
use input_manager::Direction;
use input_manager::IAxis;

// Positions are in ticks of the axis scale: at the default scale of
// 500, full deflection 1.0 is 500 ticks and 0.5 is 250.

#[test]
fn can_apply_pos() {
    let mut axis = Axis::default();
    axis.apply(AxisChange::Position(250));
    assert_eq!(axis.position, 250);
}

#[test]
fn can_apply_vel() {
    let mut axis = Axis::default();
    axis.apply(AxisChange::Velocity(Direction::Up));
    assert_eq!(axis.velocity, Some(Direction::Up));
}

#[test]
fn can_apply_falling() {
    let mut axis = Axis::default();
    axis.apply(AxisChange::Velocity(Direction::Up));
    axis.apply(AxisChange::Falling(Direction::Up));
    assert_eq!(axis.falling, true);
}

#[test]
fn reset_velocity_on_fall() {
    let mut axis = Axis::default();
    axis.velocity = Some(Direction::Up);
    axis.position = 250;
    axis.apply(AxisChange::Falling(Direction::Up));
    assert_eq!(axis.velocity, None);
}

#[test]
fn ignores_fall_when_moving_other_direction() {
    let mut axis = Axis::default();
    axis.velocity = Some(Direction::Up);
    axis.apply(AxisChange::Falling(Direction::Down));
    assert_eq!(axis.velocity, Some(Direction::Up));
    assert_eq!(axis.falling, false);
}

#[test]
fn can_tick() {
    let delta: u64 = 100;
    let mut axis = Axis { position: 0, velocity: Some(Direction::Up), falling: false, scale: 500 };
    axis.tick(delta);
    assert_eq!(axis.position, 100);

    axis.velocity = Some(Direction::Down);
    axis.tick(delta * 2);
    assert_eq!(axis.position, -100);
}

#[test]
fn caps_at_1() {
    let delta: u64 = 1000;
    let mut axis = Axis {
        position: 450,
        velocity: Some(Direction::Up),
        falling: false,
        scale: 500,
    };
    axis.tick(delta);
    assert_eq!(axis.position, 500);
}

#[test]
fn caps_at_neg_1() {
    let delta: u64 = 1000;
    let mut axis = Axis {
        position: -450,
        velocity: Some(Direction::Down),
        falling: false,
        scale: 500,
    };
    axis.tick(delta);
    assert_eq!(axis.position, -500);
}

#[test]
fn falling() {
    let delta: u64 = 100;
    let mut axis = Axis { position: 250, velocity: None, falling: true, scale: 500 };
    axis.tick(delta);
    assert_eq!(axis.position, 150);
    assert_eq!(axis.falling, true);
}

#[test]
fn can_settle() {
    let delta: u64 = 1000;
    let mut axis = Axis { position: 250, velocity: None, falling: true, scale: 500 };
    axis.tick(delta);
    assert_eq!(axis.position, 0);
    assert_eq!(axis.falling, false);
}

#[test]
fn idle_tick_keeps_position() {
    let mut axis = Axis { position: 123, velocity: None, falling: false, scale: 500 };
    axis.tick(86_400_000);
    assert_eq!(axis.position, 123);
    assert_eq!(axis.falling, false);
    assert_eq!(axis.velocity, None);
}

#[test]
fn caps_at_scale_1000() {
    // At a scale of 1000 ticks per unit, 0.9 is 900 ticks and a full
    // second of upward motion caps at 1.0, that is 1000 ticks.
    let mut axis = Axis {
        position: 900,
        velocity: Some(Direction::Up),
        falling: false,
        scale: 1000,
    };
    axis.tick(1000);
    assert_eq!(axis.position, 1000);

    let mut down = Axis {
        position: -900,
        velocity: Some(Direction::Down),
        falling: false,
        scale: 1000,
    };
    down.tick(1000);
    assert_eq!(down.position, -1000);
}

#[test]
fn falling_from_below_rises_to_zero() {
    let mut axis = Axis { position: -250, velocity: None, falling: true, scale: 500 };
    axis.tick(100);
    assert_eq!(axis.position, -150);
    assert_eq!(axis.falling, true);
    axis.tick(1000);
    assert_eq!(axis.position, 0);
    assert_eq!(axis.falling, false);
}

#[test]
fn falling_exact_landing_settles() {
    // A step that lands exactly on zero counts as reaching it, so the
    // axis settles on that very frame.
    let mut axis = Axis { position: 100, velocity: None, falling: true, scale: 500 };
    axis.tick(100);
    assert_eq!(axis.position, 0);
    assert_eq!(axis.falling, false);
}

#[test]
fn fall_gating_both_directions() {
    let mut axis = Axis::default();
    axis.apply(AxisChange::Velocity(Direction::Down));
    axis.apply(AxisChange::Falling(Direction::Up));
    assert_eq!(axis.velocity, Some(Direction::Down));
    assert_eq!(axis.falling, false);
    axis.apply(AxisChange::Falling(Direction::Down));
    assert_eq!(axis.velocity, None);
    assert_eq!(axis.falling, true);
}

#[test]
fn position_override_ends_falling() {
    let mut axis = Axis { position: 400, velocity: None, falling: true, scale: 500 };
    axis.apply(AxisChange::Position(-300));
    assert_eq!(axis.position, -300);
    assert_eq!(axis.falling, false);
}
