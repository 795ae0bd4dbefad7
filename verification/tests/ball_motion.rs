use breakout::components::{check_balls, Ball, Paddle};
use breakout::data::{LevelInfo, PauseState};
use breakout::systems::move_ball::{move_ball, LAUNCH_SPEED};
use breakout::systems::MoveBallSystem;
use breakout::util::Vector2;

fn paddle() -> Paddle {
    Paddle {
        velocity: 5_000,
        width: 10_000,
        height: 5_000,
        position: Vector2::new(250_000, 50_000),
    }
}

fn resting_ball() -> Ball {
    Ball {
        velocity: Vector2::new(0, 0),
        radius: 2_500,
        has_launched: false,
        last_position: Vector2::new(0, 0),
        position: Vector2::new(252_500, 52_500),
    }
}

fn flying_ball(position: Vector2, velocity: Vector2) -> Ball {
    Ball { velocity, radius: 2_500, has_launched: true, last_position: position, position }
}

#[test]
fn unlaunched_ball_rides_the_paddle() {
    let mut ball = resting_ball();
    let fell = move_ball(&mut ball, false, &paddle(), 16_667);
    assert!(!fell);
    assert_eq!(ball.position, Vector2::new(250_000, 52_500));
    assert_eq!(ball.last_position, Vector2::new(252_500, 52_500));
    assert_eq!(ball.velocity, Vector2::new(0, 0));
    assert!(!ball.has_launched);
}

#[test]
fn launch_gives_the_launch_speed_and_moves_at_once() {
    let mut ball = resting_ball();
    move_ball(&mut ball, false, &paddle(), 16_667);
    let fell = move_ball(&mut ball, true, &paddle(), 1_000_000);
    assert!(!fell);
    assert_eq!(LAUNCH_SPEED, 300_000);
    assert_eq!(ball.velocity, Vector2::new(300_000, 300_000));
    assert!(ball.has_launched);
    assert_eq!(ball.last_position, Vector2::new(250_000, 52_500));
    assert_eq!(ball.position, Vector2::new(550_000, 352_500));
}

#[test]
fn launched_ball_ignores_the_launch_action() {
    let mut a = flying_ball(Vector2::new(100_000, 100_000), Vector2::new(-120_000, 45_000));
    let mut b = a;
    move_ball(&mut a, true, &paddle(), 10_000);
    move_ball(&mut b, false, &paddle(), 10_000);
    assert_eq!(a, b);
    assert_eq!(a.velocity, Vector2::new(-120_000, 45_000));
    assert_eq!(a.position, Vector2::new(98_800, 100_450));
    assert_eq!(a.last_position, Vector2::new(100_000, 100_000));
}

#[test]
fn displacement_rounds_toward_zero() {
    // 300 units/s for 16.667 ms is 5.0001 units
    let mut ball = flying_ball(Vector2::new(100_000, 100_000), Vector2::new(300_000, -300_000));
    move_ball(&mut ball, false, &paddle(), 16_667);
    assert_eq!(ball.position, Vector2::new(105_000, 95_000));
    // 0.001 units/s for 0.999999 s is less than a step
    let mut ball = flying_ball(Vector2::new(100_000, 100_000), Vector2::new(1, -1));
    move_ball(&mut ball, false, &paddle(), 999_999);
    assert_eq!(ball.position, Vector2::new(100_000, 100_000));
}

#[test]
fn life_loss_on_floor_crossing() {
    let mut balls = vec![flying_ball(Vector2::new(100_000, 3_000), Vector2::new(0, -300_000))];
    let mut info = LevelInfo { num_blocks_remaining: 4, num_lives_remaining: 1 };
    MoveBallSystem.run(
        &mut balls,
        &paddle(),
        false,
        10_000,
        &PauseState { paused: false },
        &mut info,
    );
    assert_eq!(info.num_lives_remaining, 0);
    assert_eq!(info.num_blocks_remaining, 4);
    assert_eq!(balls[0].velocity, Vector2::new(0, 0));
    assert!(!balls[0].has_launched);
    assert_eq!(balls[0].position, Vector2::new(100_000, 0));
    assert_eq!(balls[0].last_position, Vector2::new(100_000, 3_000));
}

#[test]
fn ball_at_the_radius_has_not_fallen() {
    let mut ball = flying_ball(Vector2::new(100_000, 5_500), Vector2::new(0, -300_000));
    let fell = move_ball(&mut ball, false, &paddle(), 10_000);
    assert!(!fell);
    assert_eq!(ball.position.y, 2_500);
    assert!(ball.has_launched);
    let fell = move_ball(&mut ball, false, &paddle(), 4);
    assert!(fell);
    assert_eq!(ball.position.y, 2_499);
    assert!(!ball.has_launched);
}

#[test]
fn fallen_ball_rides_the_paddle_next_frame() {
    let mut ball = flying_ball(Vector2::new(100_000, 3_000), Vector2::new(0, -300_000));
    assert!(move_ball(&mut ball, false, &paddle(), 10_000));
    assert!(!move_ball(&mut ball, false, &paddle(), 10_000));
    assert_eq!(ball.position, Vector2::new(250_000, 52_500));
    assert_eq!(ball.last_position, Vector2::new(100_000, 0));
}

#[test]
fn lives_never_go_below_zero() {
    let mut balls = vec![
        flying_ball(Vector2::new(100_000, 3_000), Vector2::new(0, -300_000)),
        flying_ball(Vector2::new(200_000, 3_000), Vector2::new(0, -300_000)),
        flying_ball(Vector2::new(300_000, 300_000), Vector2::new(0, -300_000)),
    ];
    let mut info = LevelInfo { num_blocks_remaining: 4, num_lives_remaining: 1 };
    MoveBallSystem.run(
        &mut balls,
        &paddle(),
        false,
        10_000,
        &PauseState { paused: false },
        &mut info,
    );
    assert_eq!(info.num_lives_remaining, 0);
    assert!(!balls[0].has_launched);
    assert!(!balls[1].has_launched);
    assert!(balls[2].has_launched);
    assert_eq!(balls[2].position, Vector2::new(300_000, 297_000));
}

#[test]
fn each_fallen_ball_costs_a_life() {
    let mut balls = vec![
        flying_ball(Vector2::new(100_000, 3_000), Vector2::new(0, -300_000)),
        flying_ball(Vector2::new(300_000, 300_000), Vector2::new(0, -300_000)),
        flying_ball(Vector2::new(200_000, 3_000), Vector2::new(0, -300_000)),
    ];
    let mut info = LevelInfo { num_blocks_remaining: 4, num_lives_remaining: 3 };
    MoveBallSystem.run(
        &mut balls,
        &paddle(),
        false,
        10_000,
        &PauseState { paused: false },
        &mut info,
    );
    assert_eq!(info.num_lives_remaining, 1);
}

#[test]
fn balls_do_not_move_while_paused() {
    let before = vec![
        resting_ball(),
        flying_ball(Vector2::new(100_000, 3_000), Vector2::new(0, -300_000)),
    ];
    let mut balls = before.clone();
    let mut info = LevelInfo { num_blocks_remaining: 4, num_lives_remaining: 2 };
    MoveBallSystem.run(&mut balls, &paddle(), true, 10_000, &PauseState { paused: true }, &mut info);
    assert_eq!(balls, before);
    assert_eq!(info, LevelInfo { num_blocks_remaining: 4, num_lives_remaining: 2 });
}

#[test]
fn ball_position_saturates() {
    let mut ball =
        flying_ball(Vector2::new(i32::MAX - 10, i32::MAX), Vector2::new(i32::MAX, i32::MAX));
    move_ball(&mut ball, false, &paddle(), u32::MAX);
    assert_eq!(ball.position, Vector2::new(i32::MAX, i32::MAX));
    let mut ball = Ball {
        velocity: Vector2::new(0, 0),
        radius: i32::MAX,
        has_launched: false,
        last_position: Vector2::new(0, 0),
        position: Vector2::new(0, 0),
    };
    move_ball(&mut ball, false, &paddle(), 1);
    assert_eq!(ball.position, Vector2::new(250_000, i32::MAX));
}

#[test]
fn motion_keeps_velocities_reflectable() {
    let mut balls = vec![
        resting_ball(),
        flying_ball(Vector2::new(100_000, 3_000), Vector2::new(-i32::MAX, 7)),
    ];
    assert!(check_balls(&balls));
    let mut info = LevelInfo { num_blocks_remaining: 4, num_lives_remaining: 2 };
    MoveBallSystem.run(&mut balls, &paddle(), true, 10, &PauseState { paused: false }, &mut info);
    assert!(check_balls(&balls));
    balls[0].velocity.y = i32::MIN;
    assert!(!check_balls(&balls));
}
