//! Paddle motion: turns the horizontal input axis into a displacement of the
//! paddle and keeps the paddle in the arena.

use vstd::prelude::*;
use crate::components::Paddle;
use crate::config::ArenaConfig;
use crate::data::PauseState;
use crate::fixed::{
    clamp_coord, div_toward_zero, half, lemma_mul_bound, max_int, min_int, saturate, trunc_div,
    wide_mul, AXIS_FULL, MICROS_PER_SECOND,
};
use crate::util::Vector2;

verus! {

/// The way that a paddle of the given speed goes in `delta_micros`
/// microseconds at the deflection `axis`, rounded toward zero.
pub open spec fn paddle_shift(velocity: int, delta_micros: int, axis: int) -> int {
    trunc_div(velocity * delta_micros * axis, MICROS_PER_SECOND as int * AXIS_FULL as int)
}

/// The leftmost position of the paddle's centre: half its width.
pub open spec fn left_limit(paddle: Paddle) -> int {
    half(paddle.width as int)
}

/// The rightmost position of the paddle's centre: half its width short of
/// the arena's width.
pub open spec fn right_limit(paddle: Paddle, arena: ArenaConfig) -> int {
    arena.width - half(paddle.width as int)
}

/// The paddle is narrow enough for the arena: the two limits leave room.
pub open spec fn fits_arena(paddle: Paddle, arena: ArenaConfig) -> bool {
    left_limit(paddle) <= right_limit(paddle, arena)
}

/// The paddle's centre lies between the two limits.
pub open spec fn in_arena(paddle: Paddle, arena: ArenaConfig) -> bool {
    left_limit(paddle) <= paddle.position.x <= right_limit(paddle, arena)
}

/// `x` raised to the left limit, then lowered to the right limit.
pub open spec fn kept_in_arena(x: int, paddle: Paddle, arena: ArenaConfig) -> int {
    min_int(max_int(x, left_limit(paddle)), right_limit(paddle, arena))
}

/// The paddle after one frame of motion. Without a value on the axis the
/// paddle stays where it is.
pub open spec fn moved_paddle(
    paddle: Paddle,
    axis: Option<i32>,
    delta_micros: u32,
    arena: ArenaConfig,
) -> Paddle {
    match axis {
        Some(deflection) => Paddle {
            position: Vector2 {
                x: clamp_coord(
                    kept_in_arena(
                        paddle.position.x + paddle_shift(
                            paddle.velocity as int,
                            delta_micros as int,
                            deflection as int,
                        ),
                        paddle,
                        arena,
                    ),
                ) as i32,
                y: paddle.position.y,
            },
            ..paddle
        },
        None => paddle,
    }
}

/// The paddle after one frame of the paddle system.
pub open spec fn paddle_after_frame(
    paddle: Paddle,
    axis: Option<i32>,
    delta_micros: u32,
    arena: ArenaConfig,
    paused: bool,
) -> Paddle {
    if paused {
        paddle
    } else {
        moved_paddle(paddle, axis, delta_micros, arena)
    }
}

/// What one frame hands to the paddle system.
pub struct PaddleFrame {
    pub axis: Option<i32>,
    pub delta_micros: u32,
    pub paused: bool,
}

/// The paddle after the first `n` of the given frames.
pub open spec fn paddle_after_frames(
    paddle: Paddle,
    frames: Seq<PaddleFrame>,
    n: int,
    arena: ArenaConfig,
) -> Paddle
    decreases n,
{
    if n <= 0 {
        paddle
    } else {
        paddle_after_frame(
            paddle_after_frames(paddle, frames, n - 1, arena),
            frames[n - 1].axis,
            frames[n - 1].delta_micros,
            arena,
            frames[n - 1].paused,
        )
    }
}

/// A paddle that is no wider than the arena fits it.
pub proof fn lemma_narrow_paddle_fits(paddle: Paddle, arena: ArenaConfig)
    requires
        arena.wf(),
        0 <= paddle.width <= arena.width,
    ensures
        fits_arena(paddle, arena),
{
}

/// A paddle that fits the arena lies between the limits after every frame in
/// which it moves, wherever it was before and whatever the input.
pub proof fn lemma_moved_paddle_in_arena(
    paddle: Paddle,
    deflection: i32,
    delta_micros: u32,
    arena: ArenaConfig,
)
    requires
        fits_arena(paddle, arena),
    ensures
        in_arena(moved_paddle(paddle, Some(deflection), delta_micros, arena), arena),
{
}

/// A paddle that fits the arena and lies between the limits stays between
/// them over every sequence of frames, whatever the input.
pub proof fn lemma_paddle_stays_in_arena(
    paddle: Paddle,
    frames: Seq<PaddleFrame>,
    n: int,
    arena: ArenaConfig,
)
    requires
        fits_arena(paddle, arena),
        in_arena(paddle, arena),
        0 <= n <= frames.len(),
    ensures
        in_arena(paddle_after_frames(paddle, frames, n, arena), arena),
        fits_arena(paddle_after_frames(paddle, frames, n, arena), arena),
        paddle_after_frames(paddle, frames, n, arena).width == paddle.width,
    decreases n,
{
    if n > 0 {
        lemma_paddle_stays_in_arena(paddle, frames, n - 1, arena);
    }
}

/// Moves one paddle by the input of one frame and keeps it in the arena.
pub fn move_paddle(paddle: &mut Paddle, axis: Option<i32>, delta_micros: u32, arena: &ArenaConfig)
    ensures
        *final(paddle) == moved_paddle(*old(paddle), axis, delta_micros, *arena),
        axis is Some && fits_arena(*old(paddle), *arena) ==> in_arena(*final(paddle), *arena),
{
    if let Some(deflection) = axis {
        proof {
            lemma_mul_bound(paddle.velocity as int, delta_micros as int, 0x8000_0000, 0xffff_ffff);
        }
        let per_frame: i64 = paddle.velocity as i64 * delta_micros as i64;
        let scaled: i128 = wide_mul(per_frame, deflection as i64);
        let shift: i128 = div_toward_zero(scaled, MICROS_PER_SECOND as i128 * AXIS_FULL as i128);
        let half_width: i128 = (paddle.width / 2) as i128;
        let left: i128 = half_width;
        let right: i128 = arena.width as i128 - half_width;
        let mut x: i128 = paddle.position.x as i128 + shift;
        if x < left {
            x = left;
        }
        if x > right {
            x = right;
        }
        paddle.position.x = saturate(x);
    }
}

/// Paddle motion.
pub struct PaddleSystem;

impl PaddleSystem {
    /// Moves the paddle by the input of one frame, unless the match is
    /// paused.
    pub fn run(
        &mut self,
        paddle: &mut Paddle,
        axis: Option<i32>,
        delta_micros: u32,
        arena_config: &ArenaConfig,
        pause_state: &PauseState,
    )
        ensures
            *final(paddle) == paddle_after_frame(
                *old(paddle),
                axis,
                delta_micros,
                *arena_config,
                pause_state.paused,
            ),
            fits_arena(*old(paddle), *arena_config) && (in_arena(*old(paddle), *arena_config) || (
            axis is Some && !pause_state.paused)) ==> in_arena(*final(paddle), *arena_config),
    {
        if pause_state.paused {
            return ;
        }
        move_paddle(paddle, axis, delta_micros, arena_config);
    }
}

} // verus!
