//! Read-only records that describe a game: the arena, the ball, the paddle,
//! the blocks and the layouts of the levels.

use vstd::prelude::*;

verus! {

/// The play field. Its origin is the bottom left corner.
#[derive(Clone, Copy, Debug, PartialEq, Eq, Structural)]
pub struct ArenaConfig {
    pub width: i32,
    pub height: i32,
    /// Height above the floor at which the paddle rests.
    pub paddlepos: i32,
}

impl ArenaConfig {
    /// An arena has a positive width and a positive height.
    pub open spec fn wf(&self) -> bool {
        self.width > 0 && self.height > 0
    }
}

impl Default for ArenaConfig {
    fn default() -> (c: ArenaConfig)
        ensures
            c == (ArenaConfig { width: 500_000, height: 800_000, paddlepos: 50_000 }),
    {
        ArenaConfig { width: 500_000, height: 800_000, paddlepos: 50_000 }
    }
}

/// The ball.
#[derive(Clone, Copy, Debug, PartialEq, Eq, Structural)]
pub struct BallConfig {
    pub radius: i32,
}

impl Default for BallConfig {
    fn default() -> (c: BallConfig)
        ensures
            c == (BallConfig { radius: 2_500 }),
    {
        BallConfig { radius: 2_500 }
    }
}

/// The paddle.
#[derive(Clone, Copy, Debug, PartialEq, Eq, Structural)]
pub struct PaddleConfig {
    /// Thousandths of a unit per second at full deflection of the axis.
    pub velocity: i32,
    pub width: i32,
    pub height: i32,
}

impl Default for PaddleConfig {
    fn default() -> (c: PaddleConfig)
        ensures
            c == (PaddleConfig { velocity: 5_000, width: 10_000, height: 5_000 }),
    {
        PaddleConfig { velocity: 5_000, width: 10_000, height: 5_000 }
    }
}

/// The size of a block and the table of its damage states. An entry of the
/// table is a visual and a threshold of remaining hits; the entries are
/// ordered from the most damaged state to the least damaged one.
#[derive(Debug)]
pub struct BlockConfig {
    pub width: i32,
    pub height: i32,
    pub damage_states: Vec<(usize, u32)>,
}

impl Default for BlockConfig {
    fn default() -> (c: BlockConfig)
        ensures
            c.width == 10_000,
            c.height == 5_000,
            c.damage_states@.len() == 0,
    {
        BlockConfig { width: 10_000, height: 5_000, damage_states: Vec::new() }
    }
}

/// Everything that describes a game but the layouts of its levels.
#[derive(Debug)]
pub struct BreakoutConfig {
    pub arena: ArenaConfig,
    pub ball: BallConfig,
    pub paddle: PaddleConfig,
    pub block: BlockConfig,
}

impl Default for BreakoutConfig {
    fn default() -> (c: BreakoutConfig)
        ensures
            c.arena == (ArenaConfig { width: 500_000, height: 800_000, paddlepos: 50_000 }),
            c.ball == (BallConfig { radius: 2_500 }),
            c.paddle == (PaddleConfig { velocity: 5_000, width: 10_000, height: 5_000 }),
            c.block.width == 10_000,
            c.block.height == 5_000,
            c.block.damage_states@.len() == 0,
    {
        BreakoutConfig {
            arena: ArenaConfig::default(),
            ball: BallConfig::default(),
            paddle: PaddleConfig::default(),
            block: BlockConfig::default(),
        }
    }
}

/// Rows in the layout that a configuration has by default.
pub const DEFAULT_ROWS: usize = 6;

/// Cells in each row of the layout that a configuration has by default.
pub const DEFAULT_COLUMNS: usize = 8;

/// The layouts of the levels. A layout is a grid of cells, rows from the top
/// down and cells from the left; a cell holds the hits that its block takes,
/// and zero where there is no block.
#[derive(Debug)]
pub struct LevelsConfig {
    pub layout: Vec<Vec<Vec<u32>>>,
}

impl LevelsConfig {
    /// The layouts as nested sequences.
    pub open spec fn levels(&self) -> Seq<Seq<Seq<u32>>> {
        Seq::new(self.layout@.len(), |l: int| grid_of(self.layout@[l]))
    }
}

/// A grid as nested sequences.
pub open spec fn grid_of(grid: Vec<Vec<u32>>) -> Seq<Seq<u32>> {
    Seq::new(grid@.len(), |r: int| grid@[r]@)
}

/// A row of `columns` empty cells.
pub open spec fn empty_row(columns: nat) -> Seq<u32> {
    Seq::new(columns, |c: int| 0u32)
}

/// A grid of `rows` rows of `columns` empty cells.
pub open spec fn empty_grid(rows: nat, columns: nat) -> Seq<Seq<u32>> {
    Seq::new(rows, |r: int| empty_row(columns))
}

fn new_empty_row(columns: usize) -> (row: Vec<u32>)
    ensures
        row@ == empty_row(columns as nat),
{
    let mut row: Vec<u32> = Vec::new();
    let mut c: usize = 0;
    while c < columns
        invariant
            c <= columns,
            row@ == empty_row(c as nat),
        decreases columns - c,
    {
        row.push(0);
        c += 1;
    }
    row
}

impl Default for LevelsConfig {
    /// One level, with no block in it.
    fn default() -> (c: LevelsConfig)
        ensures
            c.levels() == seq![empty_grid(DEFAULT_ROWS as nat, DEFAULT_COLUMNS as nat)],
    {
        let mut grid: Vec<Vec<u32>> = Vec::new();
        let mut r: usize = 0;
        while r < DEFAULT_ROWS
            invariant
                r <= DEFAULT_ROWS,
                grid@.len() == r,
                forall|i: int| 0 <= i < r ==> (#[trigger] grid@[i])@ == empty_row(DEFAULT_COLUMNS as nat),
            decreases DEFAULT_ROWS - r,
        {
            let row = new_empty_row(DEFAULT_COLUMNS);
            grid.push(row);
            r += 1;
        }
        assert(grid_of(grid) =~= empty_grid(DEFAULT_ROWS as nat, DEFAULT_COLUMNS as nat));
        let mut layout: Vec<Vec<Vec<u32>>> = Vec::new();
        layout.push(grid);
        let c = LevelsConfig { layout };
        assert(c.levels() =~= seq![empty_grid(DEFAULT_ROWS as nat, DEFAULT_COLUMNS as nat)]);
        c
    }
}

/// The record that holds the layouts of the levels.
#[derive(Debug)]
pub struct LevelsData {
    pub levels: LevelsConfig,
}

impl Default for LevelsData {
    fn default() -> (d: LevelsData)
        ensures
            d.levels.levels() == seq![empty_grid(DEFAULT_ROWS as nat, DEFAULT_COLUMNS as nat)],
    {
        LevelsData { levels: LevelsConfig::default() }
    }
}

} // verus!
