use breakout::components::{Ball, Block, Paddle};
use breakout::config::ArenaConfig;
use breakout::data::PauseState;
use breakout::systems::bounce::{
    adjust_position, bounce_ball, classify_bounce, find_first_touched, BounceAxis,
};
use breakout::systems::BounceSystem;
use breakout::util::Vector2;

fn arena() -> ArenaConfig {
    ArenaConfig { width: 500_000, height: 800_000, paddlepos: 50_000 }
}

fn paddle() -> Paddle {
    Paddle {
        velocity: 5_000,
        width: 10_000,
        height: 5_000,
        position: Vector2::new(250_000, 50_000),
    }
}

fn ball(last: Vector2, position: Vector2, velocity: Vector2) -> Ball {
    Ball { velocity, radius: 2_500, has_launched: true, last_position: last, position }
}

fn block(x: i32, y: i32, width: i32, max_hits: u32) -> Block {
    Block {
        width,
        height: 5_000,
        max_hits,
        cur_hits: 0,
        cur_damage_state: (max_hits - 1) as usize,
        sprite_number: 2,
        position: Vector2::new(x, y),
    }
}

fn run(ball: &mut Ball, blocks: &mut Vec<Option<Block>>) {
    bounce_ball(ball, &arena(), &paddle(), blocks);
}

#[test]
fn launch_scenario_reflects_off_the_right_wall() {
    let mut b = ball(
        Vector2::new(250_000, 52_500),
        Vector2::new(550_000, 352_500),
        Vector2::new(300_000, 300_000),
    );
    let mut blocks = Vec::new();
    run(&mut b, &mut blocks);
    assert_eq!(b.velocity, Vector2::new(-300_000, 300_000));
    assert_eq!(b.position, Vector2::new(550_000, 352_500));
    assert!(b.has_launched);
}

#[test]
fn right_wall_starts_at_the_radius() {
    let mut blocks = Vec::new();
    let mut b = ball(
        Vector2::new(490_000, 300_000),
        Vector2::new(497_500, 300_000),
        Vector2::new(300_000, 0),
    );
    run(&mut b, &mut blocks);
    assert_eq!(b.velocity, Vector2::new(-300_000, 0));
    let mut b = ball(
        Vector2::new(490_000, 300_000),
        Vector2::new(497_499, 300_000),
        Vector2::new(300_000, 0),
    );
    run(&mut b, &mut blocks);
    assert_eq!(b.velocity, Vector2::new(300_000, 0));
}

#[test]
fn walls_reflect_only_a_ball_that_moves_into_them() {
    let mut blocks = Vec::new();
    // at the right wall, moving left already
    let mut b = ball(
        Vector2::new(499_000, 300_000),
        Vector2::new(498_000, 300_000),
        Vector2::new(-300_000, 0),
    );
    run(&mut b, &mut blocks);
    assert_eq!(b.velocity, Vector2::new(-300_000, 0));
    // at the left wall, moving left
    let mut b = ball(
        Vector2::new(5_000, 300_000),
        Vector2::new(2_500, 300_000),
        Vector2::new(-300_000, 10),
    );
    run(&mut b, &mut blocks);
    assert_eq!(b.velocity, Vector2::new(300_000, 10));
    // at the left wall, moving right
    let mut b =
        ball(Vector2::new(1_000, 300_000), Vector2::new(2_000, 300_000), Vector2::new(300_000, 0));
    run(&mut b, &mut blocks);
    assert_eq!(b.velocity, Vector2::new(300_000, 0));
    // at the ceiling, moving up
    let mut b = ball(
        Vector2::new(250_000, 790_000),
        Vector2::new(250_000, 797_500),
        Vector2::new(0, 300_000),
    );
    run(&mut b, &mut blocks);
    assert_eq!(b.velocity, Vector2::new(0, -300_000));
    // at the ceiling, moving down
    let mut b = ball(
        Vector2::new(250_000, 799_000),
        Vector2::new(250_000, 798_000),
        Vector2::new(0, -300_000),
    );
    run(&mut b, &mut blocks);
    assert_eq!(b.velocity, Vector2::new(0, -300_000));
}

#[test]
fn corner_reflects_both_components() {
    let mut blocks = Vec::new();
    let mut b = ball(
        Vector2::new(495_000, 795_000),
        Vector2::new(498_000, 798_000),
        Vector2::new(300_000, 300_000),
    );
    run(&mut b, &mut blocks);
    assert_eq!(b.velocity, Vector2::new(-300_000, -300_000));
}

#[test]
fn paddle_reflects_a_falling_ball() {
    let mut blocks = Vec::new();
    let mut b = ball(
        Vector2::new(252_000, 58_000),
        Vector2::new(251_000, 55_000),
        Vector2::new(-100_000, -300_000),
    );
    run(&mut b, &mut blocks);
    assert_eq!(b.velocity, Vector2::new(-100_000, 300_000));
    // a rising ball passes
    let mut b = ball(
        Vector2::new(252_000, 52_000),
        Vector2::new(251_000, 55_000),
        Vector2::new(-100_000, 300_000),
    );
    run(&mut b, &mut blocks);
    assert_eq!(b.velocity, Vector2::new(-100_000, 300_000));
}

#[test]
fn paddle_reach_is_half_extent_plus_radius() {
    let mut blocks = Vec::new();
    // 250 + 5 + 2.5 = 257.5 and 50 + 2.5 + 2.5 = 55
    let mut b = ball(
        Vector2::new(257_500, 60_000),
        Vector2::new(257_500, 55_000),
        Vector2::new(0, -300_000),
    );
    run(&mut b, &mut blocks);
    assert_eq!(b.velocity, Vector2::new(0, 300_000));
    let mut b = ball(
        Vector2::new(257_501, 60_000),
        Vector2::new(257_501, 55_000),
        Vector2::new(0, -300_000),
    );
    run(&mut b, &mut blocks);
    assert_eq!(b.velocity, Vector2::new(0, -300_000));
    let mut b = ball(
        Vector2::new(257_500, 60_000),
        Vector2::new(257_500, 55_001),
        Vector2::new(0, -300_000),
    );
    run(&mut b, &mut blocks);
    assert_eq!(b.velocity, Vector2::new(0, -300_000));
}

#[test]
fn paddle_bounce_suppresses_the_block_bounce() {
    // a block lies where the paddle is
    let mut blocks = vec![Some(block(250_000, 50_000, 10_000, 3))];
    let mut b = ball(
        Vector2::new(252_000, 58_000),
        Vector2::new(251_000, 55_000),
        Vector2::new(-100_000, -300_000),
    );
    run(&mut b, &mut blocks);
    assert_eq!(b.velocity, Vector2::new(-100_000, 300_000));
    assert_eq!(blocks, vec![Some(block(250_000, 50_000, 10_000, 3))]);
}

#[test]
fn rising_ball_at_the_paddle_bounces_off_the_block() {
    let mut blocks = vec![Some(block(250_000, 50_000, 10_000, 3))];
    let mut b = ball(
        Vector2::new(251_000, 45_000),
        Vector2::new(251_000, 46_000),
        Vector2::new(0, 300_000),
    );
    run(&mut b, &mut blocks);
    assert_eq!(b.velocity, Vector2::new(0, -300_000));
    assert_eq!(blocks[0].unwrap().cur_hits, 1);
}

#[test]
fn adjusted_position_extends_the_way_by_the_radius() {
    let b = ball(Vector2::new(100_000, 90_000), Vector2::new(100_000, 96_000), Vector2::new(0, 1));
    assert_eq!(adjust_position(&b), Vector2::new(100_000, 98_500));
    let b = ball(Vector2::new(85_000, 100_000), Vector2::new(93_000, 100_000), Vector2::new(1, 0));
    assert_eq!(adjust_position(&b), Vector2::new(95_500, 100_000));
    // a 3-4-5 step of length 5 becomes one of length 7.5
    let b = ball(Vector2::new(0, 0), Vector2::new(-3_000, 4_000), Vector2::new(1, 0));
    assert_eq!(adjust_position(&b), Vector2::new(-4_500, 6_000));
    // the length is rounded down, the quotient toward zero
    let b = ball(Vector2::new(106_000, 100_071), Vector2::new(100_000, 100_000), Vector2::new(1, 0));
    assert_eq!(adjust_position(&b), Vector2::new(97_500, 99_971));
}

#[test]
fn adjusted_position_of_a_ball_that_has_not_moved() {
    let b = ball(Vector2::new(7, -9), Vector2::new(7, -9), Vector2::new(300_000, 300_000));
    assert_eq!(adjust_position(&b), Vector2::new(7, -9));
}

#[test]
fn adjusted_position_saturates() {
    let b = ball(
        Vector2::new(i32::MIN, i32::MIN),
        Vector2::new(i32::MAX, i32::MAX),
        Vector2::new(1, 1),
    );
    assert_eq!(adjust_position(&b), Vector2::new(i32::MAX, i32::MAX));
    let mut b = ball(Vector2::new(0, 0), Vector2::new(0, 1), Vector2::new(1, 1));
    b.radius = i32::MAX;
    assert_eq!(adjust_position(&b), Vector2::new(0, i32::MAX));
    b.radius = i32::MIN;
    assert_eq!(adjust_position(&b), Vector2::new(0, i32::MIN + 1));
}

#[test]
fn way_across_the_bottom_edge_bounces_vertically() {
    let target = block(100_000, 100_000, 10_000, 3);
    let mut b = ball(
        Vector2::new(100_000, 90_000),
        Vector2::new(100_000, 96_000),
        Vector2::new(0, 300_000),
    );
    assert_eq!(classify_bounce(&b, &target), BounceAxis::Vertical);
    let mut blocks = vec![Some(target)];
    run(&mut b, &mut blocks);
    assert_eq!(b.velocity, Vector2::new(0, -300_000));
    assert_eq!(blocks[0].unwrap().cur_hits, 1);
}

#[test]
fn way_across_the_top_edge_bounces_vertically() {
    let target = block(100_000, 100_000, 10_000, 3);
    let b = ball(
        Vector2::new(101_000, 110_000),
        Vector2::new(100_000, 104_000),
        Vector2::new(-50_000, -300_000),
    );
    assert_eq!(classify_bounce(&b, &target), BounceAxis::Vertical);
}

#[test]
fn way_from_the_side_bounces_horizontally() {
    let target = block(100_000, 100_000, 10_000, 3);
    let mut b = ball(
        Vector2::new(85_000, 100_000),
        Vector2::new(93_000, 100_000),
        Vector2::new(300_000, 20_000),
    );
    assert_eq!(classify_bounce(&b, &target), BounceAxis::Horizontal);
    let mut blocks = vec![Some(target)];
    run(&mut b, &mut blocks);
    assert_eq!(b.velocity, Vector2::new(-300_000, 20_000));
    assert_eq!(blocks[0].unwrap().cur_hits, 1);
}

#[test]
fn way_aligned_with_the_right_edge_bounces_vertically() {
    // the right edge has direction (0, 10); the way back is (8.5, 0.1)
    let target = block(100_000, 100_000, 10_000, 3);
    let b = ball(
        Vector2::new(106_000, 100_071),
        Vector2::new(100_000, 100_000),
        Vector2::new(-300_000, -300_000),
    );
    assert_eq!(classify_bounce(&b, &target), BounceAxis::Vertical);
    // one step further it is an ordinary way from the side
    let b = ball(
        Vector2::new(106_000, 100_090),
        Vector2::new(100_000, 100_000),
        Vector2::new(-300_000, -300_000),
    );
    assert_eq!(classify_bounce(&b, &target), BounceAxis::Horizontal);
}

#[test]
fn way_aligned_with_the_top_edge_bounces_horizontally() {
    // the top edge has direction (-10, 0); the way back is (-0.1, -8.5); it
    // crosses the bottom edge too, but the alignment is tested first
    let target = block(100_000, 100_000, 5_000, 3);
    let b = ball(
        Vector2::new(99_929, 90_000),
        Vector2::new(100_000, 96_000),
        Vector2::new(300_000, 300_000),
    );
    assert_eq!(classify_bounce(&b, &target), BounceAxis::Horizontal);
    let b = ball(
        Vector2::new(99_900, 90_000),
        Vector2::new(100_000, 96_000),
        Vector2::new(300_000, 300_000),
    );
    assert_eq!(classify_bounce(&b, &target), BounceAxis::Vertical);
}

#[test]
fn ball_that_has_not_moved_bounces_horizontally() {
    let target = block(100_000, 100_000, 10_000, 3);
    let b = ball(
        Vector2::new(100_000, 100_000),
        Vector2::new(100_000, 100_000),
        Vector2::new(300_000, 300_000),
    );
    assert_eq!(classify_bounce(&b, &target), BounceAxis::Horizontal);
}

#[test]
fn first_touched_block_in_slot_order_takes_the_hit() {
    let far = block(300_000, 300_000, 10_000, 3);
    let second = block(104_000, 100_000, 10_000, 3);
    let third = block(100_000, 100_000, 10_000, 3);
    let mut blocks = vec![Some(far), None, Some(second), Some(third)];
    let mut b = ball(
        Vector2::new(100_000, 90_000),
        Vector2::new(100_000, 96_000),
        Vector2::new(0, 300_000),
    );
    assert_eq!(find_first_touched(&b, &blocks), Some(2));
    run(&mut b, &mut blocks);
    assert_eq!(b.velocity, Vector2::new(0, -300_000));
    assert_eq!(blocks[0], Some(far));
    assert_eq!(blocks[1], None);
    assert_eq!(blocks[2].unwrap().cur_hits, 1);
    assert_eq!(blocks[3], Some(third));
    assert_eq!(blocks.len(), 4);
}

#[test]
fn no_block_touched_means_no_bounce() {
    let mut blocks = vec![Some(block(300_000, 300_000, 10_000, 3)), None];
    let before = blocks.clone();
    let mut b = ball(
        Vector2::new(100_000, 90_000),
        Vector2::new(100_000, 96_000),
        Vector2::new(0, 300_000),
    );
    assert_eq!(find_first_touched(&b, &blocks), None);
    run(&mut b, &mut blocks);
    assert_eq!(b.velocity, Vector2::new(0, 300_000));
    assert_eq!(blocks, before);
}

#[test]
fn removed_block_is_not_touched() {
    let mut blocks = vec![None, None];
    let b = ball(
        Vector2::new(100_000, 90_000),
        Vector2::new(100_000, 96_000),
        Vector2::new(0, 300_000),
    );
    assert_eq!(find_first_touched(&b, &blocks), None);
    blocks.clear();
    assert_eq!(find_first_touched(&b, &blocks), None);
}

#[test]
fn hit_changes_nothing_but_the_count() {
    let target = block(100_000, 100_000, 10_000, 3);
    let mut blocks = vec![Some(target)];
    let mut b = ball(
        Vector2::new(100_000, 90_000),
        Vector2::new(100_000, 96_000),
        Vector2::new(0, 300_000),
    );
    run(&mut b, &mut blocks);
    assert_eq!(blocks[0], Some(Block { cur_hits: 1, ..target }));
    assert_eq!(
        b,
        ball(
            Vector2::new(100_000, 90_000),
            Vector2::new(100_000, 96_000),
            Vector2::new(0, -300_000)
        )
    );
}

#[test]
fn block_takes_no_more_hits_than_it_can() {
    let mut target = block(100_000, 100_000, 10_000, 2);
    target.cur_hits = 2;
    let mut blocks = vec![Some(target)];
    let mut b = ball(
        Vector2::new(100_000, 90_000),
        Vector2::new(100_000, 96_000),
        Vector2::new(0, 300_000),
    );
    run(&mut b, &mut blocks);
    assert_eq!(b.velocity, Vector2::new(0, -300_000));
    assert_eq!(blocks[0], Some(target));
}

#[test]
fn bounce_keeps_the_speed_along_each_axis() {
    let target = block(100_000, 100_000, 10_000, 3);
    let ways = [
        (Vector2::new(100_000, 90_000), Vector2::new(100_000, 96_000)),
        (Vector2::new(85_000, 100_000), Vector2::new(93_000, 100_000)),
        (Vector2::new(490_000, 790_000), Vector2::new(499_000, 799_000)),
        (Vector2::new(3_000, 300_000), Vector2::new(1_000, 300_000)),
        (Vector2::new(252_000, 58_000), Vector2::new(251_000, 55_000)),
        (Vector2::new(300_000, 300_000), Vector2::new(301_000, 301_000)),
    ];
    let speeds = [
        Vector2::new(300_000, 300_000),
        Vector2::new(-300_000, 300_000),
        Vector2::new(300_000, -300_000),
        Vector2::new(-300_000, -300_000),
        Vector2::new(0, -17),
        Vector2::new(i32::MAX, -i32::MAX),
    ];
    for (last, position) in ways.iter() {
        for speed in speeds.iter() {
            let mut b = ball(*last, *position, *speed);
            let mut blocks = vec![Some(target)];
            run(&mut b, &mut blocks);
            assert_eq!(b.velocity.x.abs(), speed.x.abs());
            assert_eq!(b.velocity.y.abs(), speed.y.abs());
            assert_eq!(b.position, *position);
            assert_eq!(b.last_position, *last);
            assert!(b.has_launched);
        }
    }
}

#[test]
fn balls_bounce_one_after_the_other() {
    let target = block(100_000, 100_000, 10_000, 3);
    let mut blocks = vec![Some(target)];
    let from_below = ball(
        Vector2::new(100_000, 90_000),
        Vector2::new(100_000, 96_000),
        Vector2::new(0, 300_000),
    );
    let from_the_side = ball(
        Vector2::new(85_000, 100_000),
        Vector2::new(93_000, 100_000),
        Vector2::new(300_000, 20_000),
    );
    let elsewhere = ball(
        Vector2::new(300_000, 300_000),
        Vector2::new(301_000, 301_000),
        Vector2::new(300_000, 300_000),
    );
    let mut balls = vec![from_below, elsewhere, from_the_side];
    BounceSystem.run(&mut balls, &paddle(), &mut blocks, &arena(), &PauseState { paused: false });
    assert_eq!(balls[0].velocity, Vector2::new(0, -300_000));
    assert_eq!(balls[1], elsewhere);
    assert_eq!(balls[2].velocity, Vector2::new(-300_000, 20_000));
    assert_eq!(blocks, vec![Some(Block { cur_hits: 2, ..target })]);
}

#[test]
fn nothing_bounces_while_paused() {
    let target = block(100_000, 100_000, 10_000, 3);
    let mut blocks = vec![Some(target)];
    let before = vec![
        ball(Vector2::new(100_000, 90_000), Vector2::new(100_000, 96_000), Vector2::new(0, 300_000)),
        ball(
            Vector2::new(250_000, 52_500),
            Vector2::new(550_000, 352_500),
            Vector2::new(300_000, 300_000),
        ),
    ];
    let mut balls = before.clone();
    BounceSystem.run(&mut balls, &paddle(), &mut blocks, &arena(), &PauseState { paused: true });
    assert_eq!(balls, before);
    assert_eq!(blocks, vec![Some(target)]);
}
