//! Collision resolution: reflects the velocity of a ball off the walls, the
//! paddle and the blocks, and counts the hit on the block that was touched.
//!
//! A ball is treated as a point and every rectangle is grown by the ball's
//! radius. At most one bounce off the paddle or a block is resolved for a
//! ball in a frame: the paddle comes first, then the blocks in the order of
//! their slots.

use vstd::prelude::*;
use crate::components::{all_blocks_wf, all_wf, Ball, Block, Paddle};
use crate::config::ArenaConfig;
use crate::data::PauseState;
use crate::systems::block_state::states_in_table;
use crate::fixed::{
    abs_int, clamp_coord, diff_product, div_toward_zero, half, int_sqrt, isqrt, lemma_mul_bound,
    lemma_trunc_div_bound, saturate, trunc_div, wide_mul,
};
use crate::util::{
    in_expanded_rect, is_line_intersected, is_vector_parallel, point_in_expanded_rect,
    segments_intersect, segments_parallel, Vector2,
};

verus! {

/// The component of the velocity that a bounce negates.
#[derive(Clone, Copy, Debug, PartialEq, Eq, Structural)]
pub enum BounceAxis {
    Vertical,
    Horizontal,
}

/// The ball with its vertical velocity negated.
pub open spec fn flip_vertical(ball: Ball) -> Ball {
    Ball { velocity: Vector2 { x: ball.velocity.x, y: (-ball.velocity.y) as i32 }, ..ball }
}

/// The ball with its horizontal velocity negated.
pub open spec fn flip_horizontal(ball: Ball) -> Ball {
    Ball { velocity: Vector2 { x: (-ball.velocity.x) as i32, y: ball.velocity.y }, ..ball }
}

/// The ball after a bounce along `axis`.
pub open spec fn flip(ball: Ball, axis: BounceAxis) -> Ball {
    match axis {
        BounceAxis::Vertical => flip_vertical(ball),
        BounceAxis::Horizontal => flip_horizontal(ball),
    }
}

/// The ball is at the ceiling and moves up.
pub open spec fn hits_ceiling(ball: Ball, arena: ArenaConfig) -> bool {
    ball.position.y >= arena.height - ball.radius && ball.velocity.y > 0
}

/// The ball is at the right wall and moves right, or at the left wall and
/// moves left.
pub open spec fn hits_side_wall(ball: Ball, arena: ArenaConfig) -> bool {
    (ball.position.x >= arena.width - ball.radius && ball.velocity.x > 0) || (ball.position.x
        <= ball.radius && ball.velocity.x < 0)
}

/// The ball after the ceiling and the side walls have reflected it.
pub open spec fn after_walls(ball: Ball, arena: ArenaConfig) -> Ball {
    let risen = if hits_ceiling(ball, arena) {
        flip_vertical(ball)
    } else {
        ball
    };
    if hits_side_wall(risen, arena) {
        flip_horizontal(risen)
    } else {
        risen
    }
}

/// Half the width and half the height of a rectangle.
pub open spec fn half_extents(width: i32, height: i32) -> Vector2 {
    Vector2 { x: half(width as int) as i32, y: half(height as int) as i32 }
}

/// The centre of the ball lies within its radius of the rectangle around
/// `center`.
pub open spec fn touches(ball: Ball, center: Vector2, width: i32, height: i32) -> bool {
    in_expanded_rect(
        ball.position.x as int,
        ball.position.y as int,
        center,
        half_extents(width, height),
        ball.radius as int,
    )
}

/// The ball touches the paddle and moves down.
pub open spec fn hits_paddle(ball: Ball, paddle: Paddle) -> bool {
    touches(ball, paddle.position, paddle.width, paddle.height) && ball.velocity.y < 0
}

/// The slot holds a block and the ball touches it.
pub open spec fn touches_slot(ball: Ball, slot: Option<Block>) -> bool {
    match slot {
        Some(block) => touches(ball, block.position, block.width, block.height),
        None => false,
    }
}

/// Slot `i` is the first one whose block the ball touches.
pub open spec fn is_first_touched(ball: Ball, blocks: Seq<Option<Block>>, i: int) -> bool {
    &&& 0 <= i < blocks.len()
    &&& touches_slot(ball, blocks[i])
    &&& forall|j: int| 0 <= j < i ==> !touches_slot(ball, #[trigger] blocks[j])
}

/// The first slot whose block the ball touches, if it touches any.
pub open spec fn first_touched(ball: Ball, blocks: Seq<Option<Block>>) -> Option<int> {
    if exists|i: int| is_first_touched(ball, blocks, i) {
        Some(choose|i: int| is_first_touched(ball, blocks, i))
    } else {
        None
    }
}

/// The ball's position pushed on by its radius along the way it came: the
/// step from the last position, lengthened by the radius and rounded toward
/// the last position. A ball that has not moved is not pushed.
pub open spec fn adjusted_position(ball: Ball) -> Vector2 {
    let dx = ball.position.x - ball.last_position.x;
    let dy = ball.position.y - ball.last_position.y;
    let length = int_sqrt(dx * dx + dy * dy);
    if length == 0 {
        ball.position
    } else {
        Vector2 {
            x: clamp_coord(ball.last_position.x + trunc_div(dx * (length + ball.radius), length))
                as i32,
            y: clamp_coord(ball.last_position.y + trunc_div(dy * (length + ball.radius), length))
                as i32,
        }
    }
}

/// A corner of the block's rectangle grown by the ball's radius; `right` and
/// `top` choose the corner.
pub open spec fn grown_corner(block: Block, ball: Ball, right: bool, top: bool) -> Vector2 {
    let reach_x = half(block.width as int) + ball.radius;
    let reach_y = half(block.height as int) + ball.radius;
    Vector2 {
        x: clamp_coord(
            if right {
                block.position.x + reach_x
            } else {
                block.position.x - reach_x
            },
        ) as i32,
        y: clamp_coord(
            if top {
                block.position.y + reach_y
            } else {
                block.position.y - reach_y
            },
        ) as i32,
    }
}

/// The axis along which a ball bounces off a block that it touches. The
/// ball's way is the segment from its last position to its adjusted
/// position. In this order: a way aligned with the right edge bounces
/// vertically; a way aligned with the top edge bounces horizontally; a way
/// that crosses the top or the bottom edge bounces vertically; any other way
/// bounces horizontally.
pub open spec fn bounce_axis(ball: Ball, block: Block) -> BounceAxis {
    let from = ball.last_position;
    let to = adjusted_position(ball);
    let top_right = grown_corner(block, ball, true, true);
    let top_left = grown_corner(block, ball, false, true);
    let bottom_right = grown_corner(block, ball, true, false);
    let bottom_left = grown_corner(block, ball, false, false);
    if segments_parallel(top_right, bottom_right, from, to) {
        BounceAxis::Vertical
    } else if segments_parallel(top_left, top_right, from, to) {
        BounceAxis::Horizontal
    } else if segments_intersect(top_left, top_right, from, to) || segments_intersect(
        bottom_left,
        bottom_right,
        from,
        to,
    ) {
        BounceAxis::Vertical
    } else {
        BounceAxis::Horizontal
    }
}

/// The block after one more hit. A block that has taken all its hits takes
/// no more.
pub open spec fn damaged(block: Block) -> Block {
    if block.cur_hits < block.max_hits {
        Block { cur_hits: (block.cur_hits + 1) as u32, ..block }
    } else {
        block
    }
}

/// The ball after collision resolution.
#[verifier::opaque]
pub open spec fn bounced_ball(
    ball: Ball,
    arena: ArenaConfig,
    paddle: Paddle,
    blocks: Seq<Option<Block>>,
) -> Ball {
    let inside = after_walls(ball, arena);
    if hits_paddle(inside, paddle) {
        flip_vertical(inside)
    } else {
        match first_touched(inside, blocks) {
            Some(i) => flip(inside, bounce_axis(inside, blocks[i].unwrap())),
            None => inside,
        }
    }
}

/// The blocks after collision resolution of one ball.
#[verifier::opaque]
pub open spec fn bounced_blocks(
    ball: Ball,
    arena: ArenaConfig,
    paddle: Paddle,
    blocks: Seq<Option<Block>>,
) -> Seq<Option<Block>> {
    let inside = after_walls(ball, arena);
    if hits_paddle(inside, paddle) {
        blocks
    } else {
        match first_touched(inside, blocks) {
            Some(i) => blocks.update(i, Some(damaged(blocks[i].unwrap()))),
            None => blocks,
        }
    }
}

/// The blocks after collision resolution of the first `n` balls, one after
/// the other.
pub open spec fn blocks_after(
    balls: Seq<Ball>,
    n: int,
    arena: ArenaConfig,
    paddle: Paddle,
    blocks: Seq<Option<Block>>,
) -> Seq<Option<Block>>
    decreases n,
{
    if n <= 0 {
        blocks
    } else {
        bounced_blocks(balls[n - 1], arena, paddle, blocks_after(balls, n - 1, arena, paddle, blocks))
    }
}

/// The balls after collision resolution, one after the other: each ball
/// meets the blocks as the balls before it left them.
pub open spec fn bounced_balls(
    balls: Seq<Ball>,
    arena: ArenaConfig,
    paddle: Paddle,
    blocks: Seq<Option<Block>>,
) -> Seq<Ball> {
    Seq::new(
        balls.len(),
        |i: int| bounced_ball(balls[i], arena, paddle, blocks_after(balls, i, arena, paddle, blocks)),
    )
}

/// The ball differs from `before` in its velocity at most, and has the same
/// speed along each axis.
pub open spec fn same_speed(before: Ball, after: Ball) -> bool {
    &&& after == (Ball { velocity: after.velocity, ..before })
    &&& abs_int(after.velocity.x as int) == abs_int(before.velocity.x as int)
    &&& abs_int(after.velocity.y as int) == abs_int(before.velocity.y as int)
}

/// A single bounce negates one component of the velocity and leaves the
/// other as it is.
pub proof fn lemma_flip_one_axis(ball: Ball, axis: BounceAxis)
    requires
        ball.wf(),
    ensures
        flip(ball, axis).wf(),
        same_speed(ball, flip(ball, axis)),
        axis == BounceAxis::Vertical ==> flip(ball, axis).velocity.x == ball.velocity.x && flip(
            ball,
            axis,
        ).velocity.y == -ball.velocity.y,
        axis == BounceAxis::Horizontal ==> flip(ball, axis).velocity.y == ball.velocity.y && flip(
            ball,
            axis,
        ).velocity.x == -ball.velocity.x,
{
}

/// Collision resolution reflects and never speeds up: after the walls, the
/// paddle and the blocks the ball has the speed along each axis that it had
/// before, and nothing but its velocity has changed.
pub proof fn lemma_bounce_keeps_speed(
    ball: Ball,
    arena: ArenaConfig,
    paddle: Paddle,
    blocks: Seq<Option<Block>>,
)
    requires
        ball.wf(),
    ensures
        bounced_ball(ball, arena, paddle, blocks).wf(),
        same_speed(ball, after_walls(ball, arena)),
        same_speed(ball, bounced_ball(ball, arena, paddle, blocks)),
{
    reveal(bounced_ball);
    let inside = after_walls(ball, arena);
    lemma_flip_one_axis(inside, BounceAxis::Vertical);
    lemma_flip_one_axis(inside, BounceAxis::Horizontal);
}

/// The balls differ from those before in their velocities at most, and each
/// has the same speed along each axis.
pub open spec fn all_same_speed(before: Seq<Ball>, after: Seq<Ball>) -> bool {
    &&& after.len() == before.len()
    &&& forall|i: int| 0 <= i < before.len() ==> same_speed(#[trigger] before[i], after[i])
}

/// Collision resolution of several balls keeps the speed of each of them
/// along each axis.
pub proof fn lemma_bounced_balls_keep_speed(
    balls: Seq<Ball>,
    arena: ArenaConfig,
    paddle: Paddle,
    blocks: Seq<Option<Block>>,
)
    requires
        all_wf(balls),
    ensures
        all_wf(bounced_balls(balls, arena, paddle, blocks)),
        all_same_speed(balls, bounced_balls(balls, arena, paddle, blocks)),
{
    assert forall|i: int| 0 <= i < balls.len() implies same_speed(
        #[trigger] balls[i],
        bounced_balls(balls, arena, paddle, blocks)[i],
    ) && bounced_balls(balls, arena, paddle, blocks)[i].wf() by {
        lemma_bounce_keeps_speed(
            balls[i],
            arena,
            paddle,
            blocks_after(balls, i, arena, paddle, blocks),
        );
    }
}

/// A ball that the paddle reflects bounces off no block in the same frame:
/// whatever blocks it touches, its velocity is that after the paddle alone
/// and no block takes a hit.
pub proof fn lemma_paddle_bounce_suppresses_blocks(
    ball: Ball,
    arena: ArenaConfig,
    paddle: Paddle,
    blocks: Seq<Option<Block>>,
)
    requires
        hits_paddle(after_walls(ball, arena), paddle),
    ensures
        bounced_ball(ball, arena, paddle, blocks) == flip_vertical(after_walls(ball, arena)),
        bounced_ball(ball, arena, paddle, blocks) == bounced_ball(ball, arena, paddle, Seq::empty()),
        bounced_blocks(ball, arena, paddle, blocks) == blocks,
{
    reveal(bounced_ball);
    reveal(bounced_blocks);
}

/// A ball bounces at most once off the paddle or a block in a frame: after
/// the walls, its velocity is reflected along one axis or not at all, and at
/// most one block takes a hit, a single one.
pub proof fn lemma_at_most_one_bounce(
    ball: Ball,
    arena: ArenaConfig,
    paddle: Paddle,
    blocks: Seq<Option<Block>>,
)
    ensures
        ({
            let inside = after_walls(ball, arena);
            let after = bounced_ball(ball, arena, paddle, blocks);
            after == inside || after == flip_vertical(inside) || after == flip_horizontal(inside)
        }),
        ({
            let left = bounced_blocks(ball, arena, paddle, blocks);
            left == blocks || exists|i: int|
                0 <= i < blocks.len() && blocks[i] is Some && left == blocks.update(
                    i,
                    Some(damaged(blocks[i].unwrap())),
                )
        }),
        bounced_blocks(ball, arena, paddle, blocks).len() == blocks.len(),
{
    reveal(bounced_ball);
    reveal(bounced_blocks);
    let inside = after_walls(ball, arena);
    if !hits_paddle(inside, paddle) {
        match first_touched(inside, blocks) {
            Some(i) => {
                assert(is_first_touched(inside, blocks, i));
            },
            None => {},
        }
    }
}

/// A hit leaves a block with at most the hits it can take, and one more hit
/// than before unless it had taken them all.
pub proof fn lemma_damaged_wf(block: Block)
    requires
        block.wf(),
    ensures
        damaged(block).wf(),
        block.cur_hits < block.max_hits ==> damaged(block).cur_hits == block.cur_hits + 1,
        damaged(block) == (Block { cur_hits: damaged(block).cur_hits, ..block }),
{
}

/// Collision resolution changes no damage state: where every state was an
/// index into a table, it still is after any number of balls.
pub proof fn lemma_bounce_keeps_states(
    balls: Seq<Ball>,
    n: int,
    arena: ArenaConfig,
    paddle: Paddle,
    blocks: Seq<Option<Block>>,
    states: nat,
)
    requires
        states_in_table(blocks, states),
    ensures
        states_in_table(blocks_after(balls, n, arena, paddle, blocks), states),
        blocks_after(balls, n, arena, paddle, blocks).len() == blocks.len(),
    decreases n,
{
    if n > 0 {
        lemma_bounce_keeps_states(balls, n - 1, arena, paddle, blocks, states);
        let before = blocks_after(balls, n - 1, arena, paddle, blocks);
        lemma_at_most_one_bounce(balls[n - 1], arena, paddle, before);
    }
}

/// Collision resolution neither adds nor removes a slot.
pub proof fn lemma_bounce_keeps_slots(
    balls: Seq<Ball>,
    n: int,
    arena: ArenaConfig,
    paddle: Paddle,
    blocks: Seq<Option<Block>>,
)
    ensures
        blocks_after(balls, n, arena, paddle, blocks).len() == blocks.len(),
    decreases n,
{
    if n > 0 {
        lemma_bounce_keeps_slots(balls, n - 1, arena, paddle, blocks);
        let before = blocks_after(balls, n - 1, arena, paddle, blocks);
        lemma_at_most_one_bounce(balls[n - 1], arena, paddle, before);
    }
}

/// Collision resolution never gives a block more hits than it can take.
pub proof fn lemma_bounce_keeps_hits_in_range(
    balls: Seq<Ball>,
    n: int,
    arena: ArenaConfig,
    paddle: Paddle,
    blocks: Seq<Option<Block>>,
)
    requires
        all_blocks_wf(blocks),
    ensures
        all_blocks_wf(blocks_after(balls, n, arena, paddle, blocks)),
    decreases n,
{
    if n > 0 {
        lemma_bounce_keeps_hits_in_range(balls, n - 1, arena, paddle, blocks);
        let before = blocks_after(balls, n - 1, arena, paddle, blocks);
        lemma_at_most_one_bounce(balls[n - 1], arena, paddle, before);
    }
}

/// At most one slot is the first one touched.
pub proof fn lemma_first_touched_unique(ball: Ball, blocks: Seq<Option<Block>>, i: int, j: int)
    requires
        is_first_touched(ball, blocks, i),
        is_first_touched(ball, blocks, j),
    ensures
        i == j,
{
}

/// Whether the ball touches the rectangle around `center`.
fn touches_rect(ball: &Ball, center: Vector2, width: i32, height: i32) -> (hit: bool)
    ensures
        hit == touches(*ball, center, width, height),
{
    let extents = Vector2 { x: width / 2, y: height / 2 };
    point_in_expanded_rect(ball.position.x, ball.position.y, center, extents, ball.radius)
}

/// Finds the first slot whose block the ball touches.
pub fn find_first_touched(ball: &Ball, blocks: &Vec<Option<Block>>) -> (hit: Option<usize>)
    ensures
        match hit {
            Some(i) => first_touched(*ball, blocks@) == Some(i as int) && is_first_touched(
                *ball,
                blocks@,
                i as int,
            ),
            None => first_touched(*ball, blocks@) is None && forall|j: int|
                0 <= j < blocks@.len() ==> !touches_slot(*ball, #[trigger] blocks@[j]),
        },
{
    let mut i: usize = 0;
    while i < blocks.len()
        invariant
            i <= blocks@.len(),
            forall|j: int| 0 <= j < i ==> !touches_slot(*ball, #[trigger] blocks@[j]),
        decreases blocks@.len() - i,
    {
        let touched = match &blocks[i] {
            Some(block) => touches_rect(ball, block.position, block.width, block.height),
            None => false,
        };
        if touched {
            proof {
                assert(is_first_touched(*ball, blocks@, i as int));
                let k = choose|k: int| is_first_touched(*ball, blocks@, k);
                lemma_first_touched_unique(*ball, blocks@, i as int, k);
            }
            return Some(i);
        }
        i += 1;
    }
    proof {
        assert forall|k: int| !is_first_touched(*ball, blocks@, k) by {
            if 0 <= k < blocks@.len() {
                assert(!touches_slot(*ball, blocks@[k]));
            }
        }
    }
    None
}

/// One coordinate of the adjusted position.
fn push_along(last: i32, step: i64, length: u64, radius: i32) -> (pushed: i32)
    requires
        -0xffff_ffff <= step <= 0xffff_ffff,
        0 < length <= 0x2_0000_0000,
    ensures
        pushed == clamp_coord(last + trunc_div(step * (length + radius), length as int)),
{
    let scale: i64 = length as i64 + radius as i64;
    let scaled: i128 = wide_mul(step, scale);
    proof {
        lemma_mul_bound(step as int, scale as int, 0xffff_ffff, 0x3_0000_0000);
        lemma_trunc_div_bound(scaled as int, length as int);
    }
    let moved: i128 = div_toward_zero(scaled, length as i128);
    saturate(last as i128 + moved)
}

/// Computes the ball's position pushed on by its radius along the way it came.
pub fn adjust_position(ball: &Ball) -> (adjusted: Vector2)
    ensures
        adjusted == adjusted_position(*ball),
{
    let dx: i64 = ball.position.x as i64 - ball.last_position.x as i64;
    let dy: i64 = ball.position.y as i64 - ball.last_position.y as i64;
    let xx: i128 = diff_product(dx, dx);
    let yy: i128 = diff_product(dy, dy);
    assert(xx >= 0 && yy >= 0) by (nonlinear_arith)
        requires
            xx == dx * dx,
            yy == dy * dy,
    ;
    let length: u64 = isqrt((xx + yy) as u128);
    assert(length <= 0x2_0000_0000) by (nonlinear_arith)
        requires
            length * length <= xx + yy,
            xx + yy <= 2 * (0xffff_ffff * 0xffff_ffff),
            length >= 0,
    ;
    if length == 0 {
        return ball.position;
    }
    Vector2 {
        x: push_along(ball.last_position.x, dx, length, ball.radius),
        y: push_along(ball.last_position.y, dy, length, ball.radius),
    }
}

/// One corner of the block's rectangle grown by the ball's radius.
fn corner(block: &Block, ball: &Ball, right: bool, top: bool) -> (c: Vector2)
    ensures
        c == grown_corner(*block, *ball, right, top),
{
    let reach_x: i128 = (block.width / 2) as i128 + ball.radius as i128;
    let reach_y: i128 = (block.height / 2) as i128 + ball.radius as i128;
    let x: i128 = if right {
        block.position.x as i128 + reach_x
    } else {
        block.position.x as i128 - reach_x
    };
    let y: i128 = if top {
        block.position.y as i128 + reach_y
    } else {
        block.position.y as i128 - reach_y
    };
    Vector2 { x: saturate(x), y: saturate(y) }
}

/// Decides along which axis the ball bounces off a block that it touches.
pub fn classify_bounce(ball: &Ball, block: &Block) -> (axis: BounceAxis)
    ensures
        axis == bounce_axis(*ball, *block),
{
    let from = ball.last_position;
    let to = adjust_position(ball);
    let top_right = corner(block, ball, true, true);
    let top_left = corner(block, ball, false, true);
    let bottom_right = corner(block, ball, true, false);
    let bottom_left = corner(block, ball, false, false);
    if is_vector_parallel(top_right, bottom_right, from, to) {
        BounceAxis::Vertical
    } else if is_vector_parallel(top_left, top_right, from, to) {
        BounceAxis::Horizontal
    } else if is_line_intersected(top_left, top_right, from, to) || is_line_intersected(
        bottom_left,
        bottom_right,
        from,
        to,
    ) {
        BounceAxis::Vertical
    } else {
        BounceAxis::Horizontal
    }
}

/// Resolves the collisions of one ball: the ceiling, the side walls, then
/// the paddle, and only if the paddle did not reflect the ball, the first
/// block that it touches. That block takes a hit.
pub fn bounce_ball(
    ball: &mut Ball,
    arena: &ArenaConfig,
    paddle: &Paddle,
    blocks: &mut Vec<Option<Block>>,
)
    requires
        old(ball).wf(),
    ensures
        *final(ball) == bounced_ball(*old(ball), *arena, *paddle, old(blocks)@),
        final(blocks)@ == bounced_blocks(*old(ball), *arena, *paddle, old(blocks)@),
        final(ball).wf(),
        same_speed(*old(ball), *final(ball)),
        final(blocks)@.len() == old(blocks)@.len(),
{
    proof {
        reveal(bounced_ball);
        reveal(bounced_blocks);
        lemma_bounce_keeps_speed(*old(ball), *arena, *paddle, old(blocks)@);
    }
    let radius: i64 = ball.radius as i64;
    let x: i64 = ball.position.x as i64;
    let y: i64 = ball.position.y as i64;

    if y >= arena.height as i64 - radius && ball.velocity.y > 0 {
        ball.velocity.y = -ball.velocity.y;
    }
    if (x >= arena.width as i64 - radius && ball.velocity.x > 0) || (x <= radius
        && ball.velocity.x < 0) {
        ball.velocity.x = -ball.velocity.x;
    }
    assert(*ball == after_walls(*old(ball), *arena));

    if touches_rect(ball, paddle.position, paddle.width, paddle.height) && ball.velocity.y < 0 {
        ball.velocity.y = -ball.velocity.y;
        return ;
    }
    match find_first_touched(ball, blocks) {
        Some(i) => {
            let block = blocks[i].unwrap();
            match classify_bounce(ball, &block) {
                BounceAxis::Vertical => {
                    ball.velocity.y = -ball.velocity.y;
                },
                BounceAxis::Horizontal => {
                    ball.velocity.x = -ball.velocity.x;
                },
            }
            let mut hit = block;
            if hit.cur_hits < hit.max_hits {
                hit.cur_hits = hit.cur_hits + 1;
            }
            blocks.set(i, Some(hit));
        },
        None => {},
    }
}

/// Collision resolution for every ball of the level.
pub struct BounceSystem;

impl BounceSystem {
    /// Resolves the collisions of the balls, one after the other, unless the
    /// match is paused. A ball sees the hits that the balls before it made.
    pub fn run(
        &mut self,
        balls: &mut Vec<Ball>,
        paddle: &Paddle,
        blocks: &mut Vec<Option<Block>>,
        arena_config: &ArenaConfig,
        pause_state: &PauseState,
    )
        requires
            all_wf(old(balls)@),
        ensures
            pause_state.paused ==> final(balls)@ == old(balls)@ && final(blocks)@ == old(blocks)@,
            !pause_state.paused ==> {
                &&& final(balls)@ == bounced_balls(
                    old(balls)@,
                    *arena_config,
                    *paddle,
                    old(blocks)@,
                )
                &&& final(blocks)@ == blocks_after(
                    old(balls)@,
                    old(balls)@.len() as int,
                    *arena_config,
                    *paddle,
                    old(blocks)@,
                )
            },
            all_wf(final(balls)@),
            all_same_speed(old(balls)@, final(balls)@),
            final(blocks)@.len() == old(blocks)@.len(),
    {
        if pause_state.paused {
            return ;
        }
        let mut n: usize = 0;
        while n < balls.len()
            invariant
                n <= balls@.len(),
                balls@.len() == old(balls)@.len(),
                all_wf(balls@),
                blocks@.len() == old(blocks)@.len(),
                forall|i: int| n <= i < balls@.len() ==> #[trigger] balls@[i] == old(balls)@[i],
                forall|i: int|
                    0 <= i < n ==> #[trigger] balls@[i] == bounced_ball(
                        old(balls)@[i],
                        *arena_config,
                        *paddle,
                        blocks_after(old(balls)@, i, *arena_config, *paddle, old(blocks)@),
                    ),
                blocks@ == blocks_after(old(balls)@, n as int, *arena_config, *paddle, old(blocks)@),
            decreases balls@.len() - n,
        {
            let mut ball = balls[n];
            bounce_ball(&mut ball, arena_config, paddle, blocks);
            balls.set(n, ball);
            n += 1;
        }
        assert(balls@ =~= bounced_balls(old(balls)@, *arena_config, *paddle, old(blocks)@));
        proof {
            lemma_bounced_balls_keep_speed(old(balls)@, *arena_config, *paddle, old(blocks)@);
        }
    }
}

} // verus!
