use breakout::components::Paddle;
use breakout::config::ArenaConfig;
use breakout::data::PauseState;
use breakout::systems::paddle::move_paddle;
use breakout::systems::PaddleSystem;
use breakout::util::Vector2;

fn arena() -> ArenaConfig {
    ArenaConfig { width: 500_000, height: 800_000, paddlepos: 50_000 }
}

fn paddle_at(x: i32) -> Paddle {
    Paddle { velocity: 5_000, width: 10_000, height: 5_000, position: Vector2::new(x, 50_000) }
}

fn running() -> PauseState {
    PauseState { paused: false }
}

#[test]
fn paddle_moves_by_velocity_axis_and_time() {
    let mut paddle = paddle_at(255_000);
    PaddleSystem.run(&mut paddle, Some(1_000), 1_000_000, &arena(), &running());
    assert_eq!(paddle, paddle_at(260_000));
    PaddleSystem.run(&mut paddle, Some(-500), 2_000_000, &arena(), &running());
    assert_eq!(paddle, paddle_at(255_000));
}

#[test]
fn paddle_shift_rounds_toward_zero() {
    // 5 units/s for 16.667 ms is 0.083335 units
    let mut paddle = paddle_at(255_000);
    move_paddle(&mut paddle, Some(1_000), 16_667, &arena());
    assert_eq!(paddle.position.x, 255_083);
    let mut paddle = paddle_at(255_000);
    move_paddle(&mut paddle, Some(-1_000), 16_667, &arena());
    assert_eq!(paddle.position.x, 254_917);
    // less than one step of the grid
    let mut paddle = paddle_at(255_000);
    move_paddle(&mut paddle, Some(-1), 100_000, &arena());
    assert_eq!(paddle.position.x, 255_000);
}

#[test]
fn paddle_stops_at_the_walls() {
    let mut paddle = paddle_at(494_000);
    PaddleSystem.run(&mut paddle, Some(1_000), 1_000_000, &arena(), &running());
    assert_eq!(paddle.position.x, 495_000);
    let mut paddle = paddle_at(6_000);
    PaddleSystem.run(&mut paddle, Some(-1_000), 1_000_000, &arena(), &running());
    assert_eq!(paddle.position.x, 5_000);
}

#[test]
fn paddle_outside_is_brought_back_when_it_moves() {
    let mut paddle = paddle_at(-40_000);
    PaddleSystem.run(&mut paddle, Some(0), 1_000, &arena(), &running());
    assert_eq!(paddle.position.x, 5_000);
    let mut paddle = paddle_at(900_000);
    PaddleSystem.run(&mut paddle, Some(0), 1_000, &arena(), &running());
    assert_eq!(paddle.position.x, 495_000);
}

#[test]
fn paddle_without_axis_stays() {
    let mut paddle = paddle_at(900_000);
    PaddleSystem.run(&mut paddle, None, 1_000_000, &arena(), &running());
    assert_eq!(paddle, paddle_at(900_000));
}

#[test]
fn paddle_does_not_move_while_paused() {
    let mut paddle = paddle_at(255_000);
    PaddleSystem.run(&mut paddle, Some(1_000), 1_000_000, &arena(), &PauseState { paused: true });
    assert_eq!(paddle, paddle_at(255_000));
}

#[test]
fn paddle_stays_in_bounds_over_many_frames() {
    let mut paddle = paddle_at(255_000);
    let axes = [1_000, 1_000, -1_000, 350, -1_000, -1_000, -1_000, 1_000, 0, -777];
    for round in 0..200u32 {
        for (i, axis) in axes.iter().enumerate() {
            let dt = 1_000 + 997_003 * ((round + i as u32) % 60);
            PaddleSystem.run(&mut paddle, Some(*axis), dt, &arena(), &running());
            assert!(5_000 <= paddle.position.x && paddle.position.x <= 495_000);
            assert_eq!(paddle.position.y, 50_000);
        }
    }
}

#[test]
fn paddle_with_extreme_input_stays_in_bounds() {
    let mut paddle = Paddle {
        velocity: i32::MAX,
        width: 10_000,
        height: 5_000,
        position: Vector2::new(255_000, 50_000),
    };
    PaddleSystem.run(&mut paddle, Some(i32::MAX), u32::MAX, &arena(), &running());
    assert_eq!(paddle.position.x, 495_000);
    PaddleSystem.run(&mut paddle, Some(i32::MIN), u32::MAX, &arena(), &running());
    assert_eq!(paddle.position.x, 5_000);
    paddle.velocity = i32::MIN;
    PaddleSystem.run(&mut paddle, Some(i32::MIN), u32::MAX, &arena(), &running());
    assert_eq!(paddle.position.x, 495_000);
}

#[test]
fn paddle_wider_than_the_arena_goes_to_the_right_limit() {
    // the left limit is 300, the right limit is 500 - 300 = 200
    let mut paddle =
        Paddle { velocity: 5_000, width: 600_000, height: 5_000, position: Vector2::new(0, 0) };
    move_paddle(&mut paddle, Some(0), 0, &arena());
    assert_eq!(paddle.position.x, 200_000);
}

#[test]
fn paddle_of_odd_width_has_a_rounded_half() {
    let mut paddle =
        Paddle { velocity: 0, width: 10_001, height: 5_000, position: Vector2::new(0, 0) };
    move_paddle(&mut paddle, Some(0), 0, &arena());
    assert_eq!(paddle.position.x, 5_000);
    paddle.position.x = 499_999;
    move_paddle(&mut paddle, Some(0), 0, &arena());
    assert_eq!(paddle.position.x, 495_000);
}
