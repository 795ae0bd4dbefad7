//! One frame of the simulation: the five steps in their fixed order.

use vstd::prelude::*;
use crate::components::all_blocks_wf;
use crate::config::{ArenaConfig, BreakoutConfig};
use crate::data::{LevelInfo, ScoreBoard};
use crate::states::breakout::{Breakout, BreakoutView};
use crate::systems::block::{
    blocks_left, is_spent_slot, lemma_spent_nonnegative, lemma_swept_keeps_states, score_after,
    spent_count, spent_points, swept, swept_slot, BlockSystem,
};
use crate::systems::block_state::{
    lemma_restyle_in_table, restyled_all, restyled_slot, BlockStateSystem,
};
use crate::systems::bounce::{
    blocks_after, bounced_balls, lemma_bounce_keeps_slots, lemma_bounce_keeps_states,
    lemma_bounced_balls_keep_speed, BounceSystem,
};
use crate::systems::move_ball::{
    fallen, lemma_fallen_nonnegative, lemma_moved_balls_wf, lives_left, moved_balls,
    MoveBallSystem,
};
use crate::systems::paddle::{moved_paddle, PaddleSystem};

verus! {

/// What the player and the clock hand to one frame.
#[derive(Clone, Copy, Debug, PartialEq, Eq, Structural)]
pub struct FrameInput {
    /// The horizontal axis in thousandths of full deflection, if it has a
    /// value.
    pub axis: Option<i32>,
    /// Whether the launch action is asserted.
    pub launch: bool,
    /// The time since the last frame, in microseconds.
    pub delta_micros: u32,
}

/// The level after one frame. A paused level does not change. Otherwise the
/// paddle moves first; the balls move with the paddle where it is now; the
/// collisions of the moved balls are resolved; the blocks that have taken
/// all their hits are removed and scored; the damage of the others is shown.
pub open spec fn frame(
    game: BreakoutView,
    input: FrameInput,
    arena: ArenaConfig,
    table: Seq<(usize, u32)>,
) -> BreakoutView {
    if game.pause_state.paused {
        game
    } else {
        let paddle = moved_paddle(game.paddle, input.axis, input.delta_micros, arena);
        let moved = moved_balls(game.balls, input.launch, paddle, input.delta_micros);
        let lost = fallen(
            game.balls,
            game.balls.len() as int,
            input.launch,
            paddle,
            input.delta_micros,
        );
        let hit = blocks_after(moved, moved.len() as int, arena, paddle, game.blocks);
        BreakoutView {
            level_index: game.level_index,
            pause_state: game.pause_state,
            score_board: ScoreBoard {
                current_score: score_after(
                    game.score_board.current_score,
                    spent_points(hit, hit.len() as int),
                ) as u32,
            },
            level_info: LevelInfo {
                num_blocks_remaining: blocks_left(
                    game.level_info.num_blocks_remaining,
                    spent_count(hit, hit.len() as int),
                ) as usize,
                num_lives_remaining: lives_left(game.level_info.num_lives_remaining, lost) as u32,
            },
            paddle,
            balls: bounced_balls(moved, arena, paddle, game.blocks),
            blocks: restyled_all(swept(hit), table),
        }
    }
}

/// Over a frame the score never falls, and neither the lives nor the
/// remaining blocks grow.
pub proof fn lemma_frame_monotone(
    game: BreakoutView,
    input: FrameInput,
    arena: ArenaConfig,
    table: Seq<(usize, u32)>,
)
    ensures
        frame(game, input, arena, table).score_board.current_score
            >= game.score_board.current_score,
        frame(game, input, arena, table).level_info.num_lives_remaining
            <= game.level_info.num_lives_remaining,
        frame(game, input, arena, table).level_info.num_blocks_remaining
            <= game.level_info.num_blocks_remaining,
{
    if !game.pause_state.paused {
        let paddle = moved_paddle(game.paddle, input.axis, input.delta_micros, arena);
        let moved = moved_balls(game.balls, input.launch, paddle, input.delta_micros);
        let hit = blocks_after(moved, moved.len() as int, arena, paddle, game.blocks);
        lemma_fallen_nonnegative(
            game.balls,
            game.balls.len() as int,
            input.launch,
            paddle,
            input.delta_micros,
        );
        lemma_spent_nonnegative(hit, hit.len() as int);
    }
}

/// A frame keeps a level fit for the next frame: every velocity can still be
/// reflected and every damage state is still an index into the table.
pub proof fn lemma_frame_keeps_wf(
    game: BreakoutView,
    input: FrameInput,
    arena: ArenaConfig,
    table: Seq<(usize, u32)>,
)
    requires
        game.wf(table.len()),
    ensures
        frame(game, input, arena, table).wf(table.len()),
{
    if !game.pause_state.paused {
        let paddle = moved_paddle(game.paddle, input.axis, input.delta_micros, arena);
        let moved = moved_balls(game.balls, input.launch, paddle, input.delta_micros);
        let hit = blocks_after(moved, moved.len() as int, arena, paddle, game.blocks);
        lemma_moved_balls_wf(game.balls, input.launch, paddle, input.delta_micros);
        lemma_bounced_balls_keep_speed(moved, arena, paddle, game.blocks);
        lemma_bounce_keeps_states(moved, moved.len() as int, arena, paddle, game.blocks, table.len());
        lemma_swept_keeps_states(hit, table.len());
        lemma_restyle_in_table(swept(hit), table);
    }
}

/// After a frame that ran, every block that is left can still take a hit:
/// a block is removed in the frame in which it takes its last hit. So no
/// block that is left has more hits than it can take.
pub proof fn lemma_frame_leaves_no_spent_block(
    game: BreakoutView,
    input: FrameInput,
    arena: ArenaConfig,
    table: Seq<(usize, u32)>,
)
    requires
        !game.pause_state.paused,
    ensures
        forall|i: int|
            0 <= i < frame(game, input, arena, table).blocks.len() ==> !is_spent_slot(
                #[trigger] frame(game, input, arena, table).blocks[i],
            ),
        all_blocks_wf(frame(game, input, arena, table).blocks),
        frame(game, input, arena, table).blocks.len() == game.blocks.len(),
{
    let paddle = moved_paddle(game.paddle, input.axis, input.delta_micros, arena);
    let moved = moved_balls(game.balls, input.launch, paddle, input.delta_micros);
    let hit = blocks_after(moved, moved.len() as int, arena, paddle, game.blocks);
    let left = frame(game, input, arena, table).blocks;
    assert(left == restyled_all(swept(hit), table));
    lemma_bounce_keeps_slots(moved, moved.len() as int, arena, paddle, game.blocks);
    assert forall|i: int| 0 <= i < left.len() implies !is_spent_slot(#[trigger] left[i])
        && match left[i] {
        Some(block) => block.wf(),
        None => true,
    } by {
        assert(left[i] == restyled_slot(swept(hit)[i], table));
        assert(swept(hit)[i] == swept_slot(hit[i]));
    }
}

/// The level after the first `n` of the given frames.
pub open spec fn frames(
    game: BreakoutView,
    inputs: Seq<FrameInput>,
    n: int,
    arena: ArenaConfig,
    table: Seq<(usize, u32)>,
) -> BreakoutView
    decreases n,
{
    if n <= 0 {
        game
    } else {
        frame(frames(game, inputs, n - 1, arena, table), inputs[n - 1], arena, table)
    }
}

/// Over any sequence of frames the score never falls, neither the lives nor
/// the remaining blocks grow, and the level stays fit for the next frame.
pub proof fn lemma_frames_monotone(
    game: BreakoutView,
    inputs: Seq<FrameInput>,
    n: int,
    arena: ArenaConfig,
    table: Seq<(usize, u32)>,
)
    requires
        game.wf(table.len()),
    ensures
        frames(game, inputs, n, arena, table).wf(table.len()),
        frames(game, inputs, n, arena, table).score_board.current_score
            >= game.score_board.current_score,
        frames(game, inputs, n, arena, table).level_info.num_lives_remaining
            <= game.level_info.num_lives_remaining,
        frames(game, inputs, n, arena, table).level_info.num_blocks_remaining
            <= game.level_info.num_blocks_remaining,
        frames(game, inputs, n, arena, table).level_index == game.level_index,
        frames(game, inputs, n, arena, table).pause_state == game.pause_state,
    decreases n,
{
    if n > 0 {
        let before = frames(game, inputs, n - 1, arena, table);
        lemma_frames_monotone(game, inputs, n - 1, arena, table);
        lemma_frame_monotone(before, inputs[n - 1], arena, table);
        lemma_frame_keeps_wf(before, inputs[n - 1], arena, table);
    }
}

/// The steps of a frame, bundled in their order.
pub struct BreakoutBundle;

impl BreakoutBundle {
    /// Runs one frame on a level: paddle motion, ball motion, collision
    /// resolution, block health, damage visuals.
    pub fn run_frame(&mut self, game: &mut Breakout, input: &FrameInput, config: &BreakoutConfig)
        requires
            old(game)@.wf(config.block.damage_states@.len()),
        ensures
            final(game)@ == frame(old(game)@, *input, config.arena, config.block.damage_states@),
            final(game)@.wf(config.block.damage_states@.len()),
    {
        let pause_state = game.pause_state;
        let ghost before = game@;
        let ghost states = config.block.damage_states@.len();

        let mut paddle_system = PaddleSystem;
        paddle_system.run(
            &mut game.paddle,
            input.axis,
            input.delta_micros,
            &config.arena,
            &pause_state,
        );
        let paddle = game.paddle;

        let mut ball_system = MoveBallSystem;
        ball_system.run(
            &mut game.balls,
            &paddle,
            input.launch,
            input.delta_micros,
            &pause_state,
            &mut game.level_info,
        );
        let ghost moved = game.balls@;

        let mut collision_system = BounceSystem;
        collision_system.run(&mut game.balls, &paddle, &mut game.blocks, &config.arena, &pause_state);
        let ghost hit = game.blocks@;
        proof {
            lemma_bounce_keeps_states(
                moved,
                moved.len() as int,
                config.arena,
                paddle,
                before.blocks,
                states,
            );
            lemma_swept_keeps_states(hit, states);
        }

        let mut block_system = BlockSystem;
        block_system.run(
            &mut game.blocks,
            &pause_state,
            &mut game.score_board,
            &mut game.level_info,
        );

        let mut block_state_system = BlockStateSystem;
        block_state_system.run(&mut game.blocks, &config.block, &pause_state);
    }
}

} // verus!
