//! Ball motion: launches a ball, lets an unlaunched ball ride the paddle,
//! moves a launched ball by its velocity, and takes a life when a ball falls
//! through the floor.

use vstd::prelude::*;
use crate::components::{all_wf, Ball, Paddle};
use crate::data::{LevelInfo, PauseState};
use crate::fixed::{
    clamp_coord, div_toward_zero, lemma_mul_bound, max_int, saturate, trunc_div,
    MICROS_PER_SECOND,
};
use crate::util::Vector2;

verus! {

/// The speed that a launch gives a ball along each axis.
pub const LAUNCH_SPEED: i32 = 300_000;

/// The way that something of the given velocity goes in `delta_micros`
/// microseconds, rounded toward zero.
pub open spec fn displacement(velocity: int, delta_micros: int) -> int {
    trunc_div(velocity * delta_micros, MICROS_PER_SECOND as int)
}

/// The ball with its position remembered as its last position.
pub open spec fn remembered(ball: Ball) -> Ball {
    Ball { last_position: ball.position, ..ball }
}

/// What the launch action does to a ball before it moves. A launched ball is
/// left alone. An unlaunched ball is launched if the action is asserted, and
/// is put on top of the paddle if it is not.
pub open spec fn launched_or_riding(ball: Ball, launch: bool, paddle: Paddle) -> Ball {
    if ball.has_launched {
        ball
    } else if launch {
        Ball {
            velocity: Vector2 { x: LAUNCH_SPEED, y: LAUNCH_SPEED },
            has_launched: true,
            ..ball
        }
    } else {
        Ball {
            position: Vector2 {
                x: paddle.position.x,
                y: clamp_coord(paddle.position.y + ball.radius) as i32,
            },
            ..ball
        }
    }
}

/// The ball moved by its velocity for `delta_micros` microseconds.
pub open spec fn advanced(ball: Ball, delta_micros: u32) -> Ball {
    Ball {
        position: Vector2 {
            x: clamp_coord(
                ball.position.x + displacement(ball.velocity.x as int, delta_micros as int),
            ) as i32,
            y: clamp_coord(
                ball.position.y + displacement(ball.velocity.y as int, delta_micros as int),
            ) as i32,
        },
        ..ball
    }
}

/// The ball touches or has crossed the floor.
pub open spec fn below_floor(ball: Ball) -> bool {
    ball.position.y < ball.radius
}

/// The ball at rest, waiting to ride the paddle again.
pub open spec fn grounded(ball: Ball) -> Ball {
    Ball { velocity: Vector2 { x: 0, y: 0 }, has_launched: false, ..ball }
}

/// The ball falls through the floor in this frame.
pub open spec fn falls(ball: Ball, launch: bool, paddle: Paddle, delta_micros: u32) -> bool {
    let ready = launched_or_riding(remembered(ball), launch, paddle);
    ready.has_launched && below_floor(advanced(ready, delta_micros))
}

/// The ball after one frame of motion.
pub open spec fn moved_ball(ball: Ball, launch: bool, paddle: Paddle, delta_micros: u32) -> Ball {
    let ready = launched_or_riding(remembered(ball), launch, paddle);
    if ready.has_launched {
        let flown = advanced(ready, delta_micros);
        if below_floor(flown) {
            grounded(flown)
        } else {
            flown
        }
    } else {
        ready
    }
}

/// The balls after one frame of motion.
pub open spec fn moved_balls(
    balls: Seq<Ball>,
    launch: bool,
    paddle: Paddle,
    delta_micros: u32,
) -> Seq<Ball> {
    Seq::new(balls.len(), |i: int| moved_ball(balls[i], launch, paddle, delta_micros))
}

/// How many of the first `n` balls fall through the floor in this frame.
pub open spec fn fallen(
    balls: Seq<Ball>,
    n: int,
    launch: bool,
    paddle: Paddle,
    delta_micros: u32,
) -> int
    decreases n,
{
    if n <= 0 {
        0
    } else {
        fallen(balls, n - 1, launch, paddle, delta_micros) + if falls(
            balls[n - 1],
            launch,
            paddle,
            delta_micros,
        ) {
            1int
        } else {
            0int
        }
    }
}

/// The lives that are left after `lost` of them were lost: never fewer than
/// none.
pub open spec fn lives_left(lives: u32, lost: int) -> int {
    max_int(lives - lost, 0)
}

/// No ball falls a negative number of times.
pub proof fn lemma_fallen_nonnegative(
    balls: Seq<Ball>,
    n: int,
    launch: bool,
    paddle: Paddle,
    delta_micros: u32,
)
    ensures
        0 <= fallen(balls, n, launch, paddle, delta_micros),
    decreases n,
{
    if n > 0 {
        lemma_fallen_nonnegative(balls, n - 1, launch, paddle, delta_micros);
    }
}

/// A ball is launched by the launch action alone and comes back to rest by
/// falling through the floor alone: after a frame it is launched exactly if
/// it was launched before or is launched now, and did not fall. A ball that
/// falls comes to rest.
pub proof fn lemma_launch_and_fall(ball: Ball, launch: bool, paddle: Paddle, delta_micros: u32)
    ensures
        moved_ball(ball, launch, paddle, delta_micros).has_launched <==> (ball.has_launched
            || launch) && !falls(ball, launch, paddle, delta_micros),
        falls(ball, launch, paddle, delta_micros) ==> moved_ball(
            ball,
            launch,
            paddle,
            delta_micros,
        ).velocity == (Vector2 { x: 0, y: 0 }),
        moved_ball(ball, launch, paddle, delta_micros).last_position == ball.position,
        moved_ball(ball, launch, paddle, delta_micros).radius == ball.radius,
{
}

/// Motion keeps a ball's velocity reflectable.
pub proof fn lemma_moved_ball_wf(ball: Ball, launch: bool, paddle: Paddle, delta_micros: u32)
    requires
        ball.wf(),
    ensures
        moved_ball(ball, launch, paddle, delta_micros).wf(),
{
}

/// Motion keeps the velocity of every ball reflectable.
pub proof fn lemma_moved_balls_wf(balls: Seq<Ball>, launch: bool, paddle: Paddle, delta_micros: u32)
    requires
        all_wf(balls),
    ensures
        all_wf(moved_balls(balls, launch, paddle, delta_micros)),
{
    assert forall|i: int| 0 <= i < balls.len() implies (#[trigger] moved_balls(
        balls,
        launch,
        paddle,
        delta_micros,
    )[i]).wf() by {
        lemma_moved_ball_wf(balls[i], launch, paddle, delta_micros);
    }
}

/// One coordinate moved by its velocity for `delta_micros` microseconds.
fn advance(position: i32, velocity: i32, delta_micros: u32) -> (moved: i32)
    ensures
        moved == clamp_coord(position + displacement(velocity as int, delta_micros as int)),
{
    proof {
        lemma_mul_bound(velocity as int, delta_micros as int, 0x8000_0000, 0xffff_ffff);
    }
    let scaled: i64 = velocity as i64 * delta_micros as i64;
    let step: i128 = div_toward_zero(scaled as i128, MICROS_PER_SECOND as i128);
    saturate(position as i128 + step)
}

/// Moves one ball by one frame. Returns whether the ball fell through the
/// floor, which costs a life.
pub fn move_ball(ball: &mut Ball, launch: bool, paddle: &Paddle, delta_micros: u32) -> (fell: bool)
    ensures
        *final(ball) == moved_ball(*old(ball), launch, *paddle, delta_micros),
        fell == falls(*old(ball), launch, *paddle, delta_micros),
{
    ball.last_position = ball.position;
    if !ball.has_launched {
        if launch {
            ball.velocity = Vector2 { x: LAUNCH_SPEED, y: LAUNCH_SPEED };
            ball.has_launched = true;
        } else {
            ball.position = Vector2 {
                x: paddle.position.x,
                y: saturate(paddle.position.y as i128 + ball.radius as i128),
            };
        }
    }
    if ball.has_launched {
        ball.position = Vector2 {
            x: advance(ball.position.x, ball.velocity.x, delta_micros),
            y: advance(ball.position.y, ball.velocity.y, delta_micros),
        };
        if ball.position.y < ball.radius {
            ball.velocity = Vector2 { x: 0, y: 0 };
            ball.has_launched = false;
            return true;
        }
    }
    false
}

/// Ball motion.
pub struct MoveBallSystem;

impl MoveBallSystem {
    /// Moves every ball by one frame, unless the match is paused, and takes
    /// one life for each ball that fell through the floor.
    pub fn run(
        &mut self,
        balls: &mut Vec<Ball>,
        paddle: &Paddle,
        launch: bool,
        delta_micros: u32,
        pause_state: &PauseState,
        level_info: &mut LevelInfo,
    )
        ensures
            pause_state.paused ==> final(balls)@ == old(balls)@ && *final(level_info) == *old(
                level_info,
            ),
            !pause_state.paused ==> {
                &&& final(balls)@ == moved_balls(old(balls)@, launch, *paddle, delta_micros)
                &&& final(level_info).num_lives_remaining == lives_left(
                    old(level_info).num_lives_remaining,
                    fallen(old(balls)@, old(balls)@.len() as int, launch, *paddle, delta_micros),
                )
                &&& final(level_info).num_blocks_remaining == old(level_info).num_blocks_remaining
            },
            all_wf(old(balls)@) ==> all_wf(final(balls)@),
    {
        if pause_state.paused {
            return ;
        }
        let mut n: usize = 0;
        while n < balls.len()
            invariant
                n <= balls@.len(),
                balls@.len() == old(balls)@.len(),
                forall|i: int| n <= i < balls@.len() ==> #[trigger] balls@[i] == old(balls)@[i],
                forall|i: int|
                    0 <= i < n ==> #[trigger] balls@[i] == moved_ball(
                        old(balls)@[i],
                        launch,
                        *paddle,
                        delta_micros,
                    ),
                level_info.num_lives_remaining == lives_left(
                    old(level_info).num_lives_remaining,
                    fallen(old(balls)@, n as int, launch, *paddle, delta_micros),
                ),
                level_info.num_blocks_remaining == old(level_info).num_blocks_remaining,
            decreases balls@.len() - n,
        {
            proof {
                lemma_fallen_nonnegative(old(balls)@, n as int, launch, *paddle, delta_micros);
            }
            let mut ball = balls[n];
            let fell = move_ball(&mut ball, launch, paddle, delta_micros);
            balls.set(n, ball);
            if fell && level_info.num_lives_remaining > 0 {
                level_info.num_lives_remaining = level_info.num_lives_remaining - 1;
            }
            n += 1;
        }
        assert(balls@ =~= moved_balls(old(balls)@, launch, *paddle, delta_micros));
        proof {
            if all_wf(old(balls)@) {
                lemma_moved_balls_wf(old(balls)@, launch, *paddle, delta_micros);
            }
        }
    }
}

} // verus!
