//! The level that is being played: how it is set up from the configuration,
//! and when it is over.

use vstd::prelude::*;
use crate::components::{all_wf, check_balls, Ball, Block, Paddle};
use crate::config::{
    grid_of, ArenaConfig, BallConfig, BlockConfig, BreakoutConfig, LevelsConfig, PaddleConfig,
};
use crate::data::{LevelInfo, PauseState, ScoreBoard};
use crate::fixed::{clamp_coord, half, lemma_mul_bound, saturate};
use crate::states::trans::{Screen, Trans, WindowEvent};
use crate::systems::block_state::{check_states, states_in_table};
use crate::util::Vector2;

verus! {

/// The lives that a level starts with.
pub const STARTING_LIVES: u32 = 3;

/// The paddle as a level starts: at its resting height, its centre half its
/// width right of the middle of the arena.
pub open spec fn initial_paddle(paddle_config: PaddleConfig, arena: ArenaConfig) -> Paddle {
    Paddle {
        velocity: paddle_config.velocity,
        width: paddle_config.width,
        height: paddle_config.height,
        position: Vector2 {
            x: clamp_coord(half(paddle_config.width as int) + half(arena.width as int)) as i32,
            y: arena.paddlepos,
        },
    }
}

/// The ball as a level starts: at rest, not launched, its radius above the
/// paddle's resting height and its radius right of the middle of the arena.
pub open spec fn initial_ball(ball_config: BallConfig, arena: ArenaConfig) -> Ball {
    Ball {
        velocity: Vector2 { x: 0, y: 0 },
        radius: ball_config.radius,
        has_launched: false,
        last_position: Vector2 { x: 0, y: 0 },
        position: Vector2 {
            x: clamp_coord(ball_config.radius + half(arena.width as int)) as i32,
            y: clamp_coord(arena.paddlepos + ball_config.radius) as i32,
        },
    }
}

/// The block of the cell in the given row and column of a layout, for a cell
/// that holds `hits > 0`. Rows are counted from the ceiling down, columns
/// from the left wall. The block starts in the damage state `hits - 1`.
pub open spec fn block_at(
    row: int,
    column: int,
    hits: u32,
    width: i32,
    height: i32,
    table: Seq<(usize, u32)>,
    arena: ArenaConfig,
) -> Block {
    Block {
        width,
        height,
        max_hits: hits,
        cur_hits: 0,
        cur_damage_state: (hits - 1) as usize,
        sprite_number: table[hits - 1].0,
        position: Vector2 {
            x: clamp_coord(half(width as int) + width * column) as i32,
            y: clamp_coord((arena.height - height * row) - half(height as int)) as i32,
        },
    }
}

/// The blocks of the first `n` cells of a row, from the left.
pub open spec fn row_blocks(
    cells: Seq<u32>,
    row: int,
    n: int,
    width: i32,
    height: i32,
    table: Seq<(usize, u32)>,
    arena: ArenaConfig,
) -> Seq<Option<Block>>
    decreases n,
{
    if n <= 0 {
        Seq::empty()
    } else {
        let before = row_blocks(cells, row, n - 1, width, height, table, arena);
        if cells[n - 1] == 0 {
            before
        } else {
            before.push(Some(block_at(row, n - 1, cells[n - 1], width, height, table, arena)))
        }
    }
}

/// The blocks of the first `n` rows of a layout, row by row from the top.
pub open spec fn grid_blocks(
    grid: Seq<Seq<u32>>,
    n: int,
    width: i32,
    height: i32,
    table: Seq<(usize, u32)>,
    arena: ArenaConfig,
) -> Seq<Option<Block>>
    decreases n,
{
    if n <= 0 {
        Seq::empty()
    } else {
        grid_blocks(grid, n - 1, width, height, table, arena) + row_blocks(
            grid[n - 1],
            n - 1,
            grid[n - 1].len() as int,
            width,
            height,
            table,
            arena,
        )
    }
}

/// The blocks of a layout.
pub open spec fn level_blocks(
    grid: Seq<Seq<u32>>,
    width: i32,
    height: i32,
    table: Seq<(usize, u32)>,
    arena: ArenaConfig,
) -> Seq<Option<Block>> {
    grid_blocks(grid, grid.len() as int, width, height, table, arena)
}

/// The cells among the first `n` of a row that hold a block.
pub open spec fn row_count(cells: Seq<u32>, n: int) -> int
    decreases n,
{
    if n <= 0 {
        0
    } else {
        row_count(cells, n - 1) + if cells[n - 1] == 0 {
            0int
        } else {
            1int
        }
    }
}

/// The cells in the first `n` rows of a layout that hold a block.
pub open spec fn grid_count(grid: Seq<Seq<u32>>, n: int) -> int
    decreases n,
{
    if n <= 0 {
        0
    } else {
        grid_count(grid, n - 1) + row_count(grid[n - 1], grid[n - 1].len() as int)
    }
}

/// Every cell of the layout can start in a damage state of a table with
/// `states` entries: no cell holds more hits than the table has entries.
pub open spec fn grid_fits_table(grid: Seq<Seq<u32>>, states: nat) -> bool {
    forall|r: int, c: int|
        0 <= r < grid.len() && 0 <= c < grid[r].len() ==> (#[trigger] grid[r][c]) <= states
}

/// Every slot holds a block that has taken no hit, can take at least one,
/// and starts in a damage state of a table with `states` entries.
pub open spec fn all_fresh(blocks: Seq<Option<Block>>, states: nat) -> bool {
    forall|i: int|
        0 <= i < blocks.len() ==> match #[trigger] blocks[i] {
            Some(block) => block.cur_hits == 0 && block.max_hits > 0 && block.cur_damage_state
                < states,
            None => false,
        }
}

/// A row yields one block for each cell that holds one, and each of them is
/// fresh.
pub proof fn lemma_row_blocks(
    cells: Seq<u32>,
    row: int,
    n: int,
    width: i32,
    height: i32,
    table: Seq<(usize, u32)>,
    arena: ArenaConfig,
)
    requires
        0 <= n <= cells.len(),
        forall|c: int| 0 <= c < cells.len() ==> (#[trigger] cells[c]) <= table.len(),
    ensures
        row_blocks(cells, row, n, width, height, table, arena).len() == row_count(cells, n),
        all_fresh(row_blocks(cells, row, n, width, height, table, arena), table.len()),
    decreases n,
{
    if n > 0 {
        lemma_row_blocks(cells, row, n - 1, width, height, table, arena);
    }
}

/// A layout yields one block for each cell that holds one, and each of them
/// is fresh.
pub proof fn lemma_grid_blocks(
    grid: Seq<Seq<u32>>,
    n: int,
    width: i32,
    height: i32,
    table: Seq<(usize, u32)>,
    arena: ArenaConfig,
)
    requires
        0 <= n <= grid.len(),
        grid_fits_table(grid, table.len()),
    ensures
        grid_blocks(grid, n, width, height, table, arena).len() == grid_count(grid, n),
        all_fresh(grid_blocks(grid, n, width, height, table, arena), table.len()),
    decreases n,
{
    if n > 0 {
        lemma_grid_blocks(grid, n - 1, width, height, table, arena);
        let cells = grid[n - 1];
        assert forall|c: int| 0 <= c < cells.len() implies (#[trigger] cells[c]) <= table.len() by {
            assert(grid[n - 1][c] <= table.len());
        }
        lemma_row_blocks(cells, n - 1, cells.len() as int, width, height, table, arena);
    }
}

/// Sets up the paddle of a level.
pub fn initialise_paddle(paddle_config: &PaddleConfig, arena_config: &ArenaConfig) -> (paddle:
    Paddle)
    ensures
        paddle == initial_paddle(*paddle_config, *arena_config),
{
    let x: i128 = (paddle_config.width / 2) as i128 + (arena_config.width / 2) as i128;
    Paddle {
        velocity: paddle_config.velocity,
        width: paddle_config.width,
        height: paddle_config.height,
        position: Vector2 { x: saturate(x), y: arena_config.paddlepos },
    }
}

/// Sets up the ball of a level.
pub fn initialise_ball(ball_config: &BallConfig, arena_config: &ArenaConfig) -> (ball: Ball)
    ensures
        ball == initial_ball(*ball_config, *arena_config),
        ball.wf(),
{
    let x: i128 = ball_config.radius as i128 + (arena_config.width / 2) as i128;
    let y: i128 = arena_config.paddlepos as i128 + ball_config.radius as i128;
    Ball {
        velocity: Vector2 { x: 0, y: 0 },
        radius: ball_config.radius,
        has_launched: false,
        last_position: Vector2 { x: 0, y: 0 },
        position: Vector2 { x: saturate(x), y: saturate(y) },
    }
}

/// Sets up the block of one cell that holds `hits > 0`.
fn place_block(
    row: usize,
    column: usize,
    hits: u32,
    block_config: &BlockConfig,
    arena_config: &ArenaConfig,
) -> (block: Block)
    requires
        0 < hits <= block_config.damage_states@.len(),
    ensures
        block == block_at(
            row as int,
            column as int,
            hits,
            block_config.width,
            block_config.height,
            block_config.damage_states@,
            *arena_config,
        ),
{
    proof {
        lemma_mul_bound(
            block_config.width as int,
            column as int,
            0x8000_0000,
            0x1_0000_0000_0000_0000,
        );
        lemma_mul_bound(
            block_config.height as int,
            row as int,
            0x8000_0000,
            0x1_0000_0000_0000_0000,
        );
    }
    let across: i128 = block_config.width as i128 * column as i128;
    let down: i128 = block_config.height as i128 * row as i128;
    let x: i128 = (block_config.width / 2) as i128 + across;
    let y: i128 = (arena_config.height as i128 - down) - (block_config.height / 2) as i128;
    let state: usize = (hits - 1) as usize;
    Block {
        width: block_config.width,
        height: block_config.height,
        max_hits: hits,
        cur_hits: 0,
        cur_damage_state: state,
        sprite_number: block_config.damage_states[state].0,
        position: Vector2 { x: saturate(x), y: saturate(y) },
    }
}

/// Sets up the blocks of the level with the given index: one block for each
/// cell of its layout that holds a number of hits, row by row. There is no
/// result where the level does not exist or one of its cells holds more hits
/// than the table of damage states has entries.
pub fn initialise_level(
    levels: &LevelsConfig,
    level_index: usize,
    block_config: &BlockConfig,
    arena_config: &ArenaConfig,
) -> (blocks: Option<Vec<Option<Block>>>)
    ensures
        blocks is Some <==> level_index < levels.levels().len() && grid_fits_table(
            levels.levels()[level_index as int],
            block_config.damage_states@.len(),
        ),
        match blocks {
            Some(placed) => {
                &&& placed@ == level_blocks(
                    levels.levels()[level_index as int],
                    block_config.width,
                    block_config.height,
                    block_config.damage_states@,
                    *arena_config,
                )
                &&& placed@.len() == grid_count(
                    levels.levels()[level_index as int],
                    levels.levels()[level_index as int].len() as int,
                )
                &&& all_fresh(placed@, block_config.damage_states@.len())
            },
            None => true,
        },
{
    if level_index >= levels.layout.len() {
        return None;
    }
    let grid = &levels.layout[level_index];
    let ghost cells = grid_of(*grid);
    let ghost table = block_config.damage_states@;
    assert(cells == levels.levels()[level_index as int]);
    let mut placed: Vec<Option<Block>> = Vec::new();
    let mut row: usize = 0;
    while row < grid.len()
        invariant
            row <= grid@.len(),
            cells == grid_of(*grid),
            level_index < levels.levels().len(),
            cells == levels.levels()[level_index as int],
            table == block_config.damage_states@,
            forall|r: int, c: int|
                0 <= r < row && 0 <= c < cells[r].len() ==> (#[trigger] cells[r][c]) <= table.len(),
            placed@ == grid_blocks(
                cells,
                row as int,
                block_config.width,
                block_config.height,
                table,
                *arena_config,
            ),
        decreases grid@.len() - row,
    {
        let line = &grid[row];
        assert(line@ == cells[row as int]);
        let ghost above = placed@;
        let mut column: usize = 0;
        while column < line.len()
            invariant
                column <= line@.len(),
                row < grid@.len(),
                cells == grid_of(*grid),
                level_index < levels.levels().len(),
                cells == levels.levels()[level_index as int],
                line@ == cells[row as int],
                table == block_config.damage_states@,
                forall|c: int| 0 <= c < column ==> (#[trigger] line@[c]) <= table.len(),
                placed@ == above + row_blocks(
                    line@,
                    row as int,
                    column as int,
                    block_config.width,
                    block_config.height,
                    table,
                    *arena_config,
                ),
            decreases line@.len() - column,
        {
            let hits: u32 = line[column];
            if hits != 0 {
                if hits as usize > block_config.damage_states.len() {
                    assert(cells[row as int][column as int] > table.len());
                    return None;
                }
                let block = place_block(row, column, hits, block_config, arena_config);
                placed.push(Some(block));
            }
            column += 1;
            assert(placed@ =~= above + row_blocks(
                line@,
                row as int,
                column as int,
                block_config.width,
                block_config.height,
                table,
                *arena_config,
            ));
        }
        row += 1;
    }
    proof {
        assert(grid_fits_table(cells, table.len()));
        lemma_grid_blocks(
            cells,
            cells.len() as int,
            block_config.width,
            block_config.height,
            table,
            *arena_config,
        );
    }
    Some(placed)
}

/// A level that is being played: the match state and everything that lives
/// in the level.
#[derive(Debug)]
pub struct Breakout {
    pub level_index: usize,
    pub pause_state: PauseState,
    pub score_board: ScoreBoard,
    pub level_info: LevelInfo,
    pub paddle: Paddle,
    pub balls: Vec<Ball>,
    pub blocks: Vec<Option<Block>>,
}

/// A level as plain values.
pub struct BreakoutView {
    pub level_index: usize,
    pub pause_state: PauseState,
    pub score_board: ScoreBoard,
    pub level_info: LevelInfo,
    pub paddle: Paddle,
    pub balls: Seq<Ball>,
    pub blocks: Seq<Option<Block>>,
}

impl View for Breakout {
    type V = BreakoutView;

    open spec fn view(&self) -> BreakoutView {
        BreakoutView {
            level_index: self.level_index,
            pause_state: self.pause_state,
            score_board: self.score_board,
            level_info: self.level_info,
            paddle: self.paddle,
            balls: self.balls@,
            blocks: self.blocks@,
        }
    }
}

impl BreakoutView {
    /// Every ball's velocity can be reflected, and the damage state of every
    /// block is an index into a table with `states` entries.
    pub open spec fn wf(&self, states: nat) -> bool {
        all_wf(self.balls) && states_in_table(self.blocks, states)
    }
}

/// A level before it has started: nothing lives in it, and no life and no
/// block is left.
pub open spec fn empty_level(level_index: usize) -> BreakoutView {
    BreakoutView {
        level_index,
        pause_state: PauseState { paused: false },
        score_board: ScoreBoard { current_score: 0 },
        level_info: LevelInfo { num_blocks_remaining: 0, num_lives_remaining: 0 },
        paddle: Paddle { velocity: 0, width: 0, height: 0, position: Vector2 { x: 0, y: 0 } },
        balls: Seq::empty(),
        blocks: Seq::empty(),
    }
}

/// A level as it starts: not paused, no score, all lives, one ball, the
/// paddle, and the blocks of the layout, all of which remain.
pub open spec fn started_level(
    level_index: usize,
    grid: Seq<Seq<u32>>,
    arena: ArenaConfig,
    ball_config: BallConfig,
    paddle_config: PaddleConfig,
    block_width: i32,
    block_height: i32,
    table: Seq<(usize, u32)>,
) -> BreakoutView {
    BreakoutView {
        level_index,
        pause_state: PauseState { paused: false },
        score_board: ScoreBoard { current_score: 0 },
        level_info: LevelInfo {
            num_blocks_remaining: grid_count(grid, grid.len() as int) as usize,
            num_lives_remaining: STARTING_LIVES,
        },
        paddle: initial_paddle(paddle_config, arena),
        balls: seq![initial_ball(ball_config, arena)],
        blocks: level_blocks(grid, block_width, block_height, table, arena),
    }
}

/// What the level asks for when the window reports something.
pub open spec fn breakout_trans(event: WindowEvent) -> Trans {
    match event {
        WindowEvent::CloseRequested => Trans::Quit,
        WindowEvent::EscapeDown => Trans::Push(Screen::PauseMenu),
        WindowEvent::Other => Trans::Stay,
    }
}

impl Breakout {
    /// A level that has not started yet.
    pub fn new(index: usize) -> (game: Breakout)
        ensures
            game@ == empty_level(index),
    {
        Breakout {
            level_index: index,
            pause_state: PauseState { paused: false },
            score_board: ScoreBoard { current_score: 0 },
            level_info: LevelInfo { num_blocks_remaining: 0, num_lives_remaining: 0 },
            paddle: Paddle { velocity: 0, width: 0, height: 0, position: Vector2 { x: 0, y: 0 } },
            balls: Vec::new(),
            blocks: Vec::new(),
        }
    }

    /// Starts the level: sets up the match state, the blocks of the layout,
    /// the ball and the paddle. Nothing changes, and the result is `false`,
    /// where the level does not exist or one of its cells holds more hits
    /// than the table of damage states has entries.
    pub fn on_start(&mut self, config: &BreakoutConfig, levels: &LevelsConfig) -> (started: bool)
        ensures
            started <==> old(self).level_index < levels.levels().len() && grid_fits_table(
                levels.levels()[old(self).level_index as int],
                config.block.damage_states@.len(),
            ),
            started ==> final(self)@ == started_level(
                old(self).level_index,
                levels.levels()[old(self).level_index as int],
                config.arena,
                config.ball,
                config.paddle,
                config.block.width,
                config.block.height,
                config.block.damage_states@,
            ) && final(self)@.wf(config.block.damage_states@.len()),
            !started ==> final(self)@ == old(self)@,
    {
        match initialise_level(levels, self.level_index, &config.block, &config.arena) {
            Some(blocks) => {
                self.pause_state = PauseState { paused: false };
                self.score_board = ScoreBoard { current_score: 0 };
                self.level_info = LevelInfo {
                    num_blocks_remaining: blocks.len(),
                    num_lives_remaining: STARTING_LIVES,
                };
                self.blocks = blocks;
                let mut balls: Vec<Ball> = Vec::new();
                balls.push(initialise_ball(&config.ball, &config.arena));
                self.balls = balls;
                self.paddle = initialise_paddle(&config.paddle, &config.arena);
                proof {
                    assert(self.balls@ =~= seq![initial_ball(config.ball, config.arena)]);
                }
                true
            },
            None => false,
        }
    }

    /// Whether a frame can run on the level: every ball's velocity can be
    /// reflected, and every damage state is an index into the table of the
    /// configuration.
    pub fn is_wf(&self, config: &BreakoutConfig) -> (ok: bool)
        ensures
            ok == self@.wf(config.block.damage_states@.len()),
    {
        check_balls(&self.balls) && check_states(&self.blocks, config.block.damage_states.len())
    }

    /// The level is over: no life or no block is left.
    pub open spec fn is_over(&self) -> bool {
        self.level_info.spec_level_ended()
    }

    /// Signals the end of the level: asks for the results screen when the
    /// level is over, and for nothing before that.
    pub fn update(&self) -> (trans: Trans)
        ensures
            trans == if self.is_over() {
                Trans::Switch(Screen::Results)
            } else {
                Trans::Stay
            },
    {
        if self.level_info.level_ended() {
            Trans::Switch(Screen::Results)
        } else {
            Trans::Stay
        }
    }

    /// Handles what the window reports: closing it leaves the game, the
    /// escape key puts the pause menu on top of the level.
    pub fn handle_event(&self, event: WindowEvent) -> (trans: Trans)
        ensures
            trans == breakout_trans(event),
    {
        match event {
            WindowEvent::CloseRequested => Trans::Quit,
            WindowEvent::EscapeDown => Trans::Push(Screen::PauseMenu),
            WindowEvent::Other => Trans::Stay,
        }
    }

    /// Halts the simulation.
    pub fn on_pause(&mut self)
        ensures
            final(self)@ == (BreakoutView { pause_state: PauseState { paused: true }, ..old(self)@ }),
    {
        self.pause_state.paused = true;
    }

    /// Lets the simulation run again.
    pub fn on_resume(&mut self)
        ensures
            final(self)@ == (BreakoutView {
                pause_state: PauseState { paused: false },
                ..old(self)@
            }),
    {
        self.pause_state.paused = false;
    }
}

} // verus!
