//! The things that live in a level: the ball, the paddle and the blocks.
//! Each carries its own position on the coordinate grid.

use vstd::prelude::*;
use crate::util::Vector2;

verus! {

/// A ball. It rides the paddle until it is launched, and returns to it when
/// it falls through the floor.
#[derive(Clone, Copy, Debug, PartialEq, Eq, Structural)]
pub struct Ball {
    /// Thousandths of a unit per second; zero while the ball is not launched.
    pub velocity: Vector2,
    pub radius: i32,
    pub has_launched: bool,
    /// Where the ball was before the last motion step.
    pub last_position: Vector2,
    pub position: Vector2,
}

impl Ball {
    /// Both components of the velocity can be reflected: their negation is
    /// representable.
    pub open spec fn wf(&self) -> bool {
        self.velocity.x > i32::MIN && self.velocity.y > i32::MIN
    }
}

/// Every ball's velocity can be reflected.
pub open spec fn all_wf(balls: Seq<Ball>) -> bool {
    forall|i: int| 0 <= i < balls.len() ==> (#[trigger] balls[i]).wf()
}

/// Whether every ball's velocity can be reflected.
pub fn check_balls(balls: &Vec<Ball>) -> (ok: bool)
    ensures
        ok == all_wf(balls@),
{
    let mut n: usize = 0;
    while n < balls.len()
        invariant
            n <= balls@.len(),
            forall|i: int| 0 <= i < n ==> (#[trigger] balls@[i]).wf(),
        decreases balls@.len() - n,
    {
        if balls[n].velocity.x == i32::MIN || balls[n].velocity.y == i32::MIN {
            assert(!balls@[n as int].wf());
            return false;
        }
        n += 1;
    }
    true
}

/// The paddle. Only its horizontal position changes.
#[derive(Clone, Copy, Debug, PartialEq, Eq, Structural)]
pub struct Paddle {
    /// Thousandths of a unit per second at full deflection of the axis.
    pub velocity: i32,
    pub width: i32,
    pub height: i32,
    pub position: Vector2,
}

/// A block. It is destroyed when it has taken `max_hits` hits.
#[derive(Clone, Copy, Debug, PartialEq, Eq, Structural)]
pub struct Block {
    pub width: i32,
    pub height: i32,
    pub max_hits: u32,
    pub cur_hits: u32,
    /// Index into the table of damage states; lower is more damaged.
    pub cur_damage_state: usize,
    /// The visual that the current damage state shows.
    pub sprite_number: usize,
    pub position: Vector2,
}

impl Block {
    /// A block has taken at most as many hits as it can take.
    pub open spec fn wf(&self) -> bool {
        self.cur_hits <= self.max_hits
    }

    /// The block has taken all the hits it can take.
    pub open spec fn is_spent(&self) -> bool {
        self.cur_hits >= self.max_hits
    }

    /// The hits that the block can still take.
    pub open spec fn hits_remaining(&self) -> int {
        self.max_hits - self.cur_hits
    }
}

/// Every block in the slots has taken at most as many hits as it can take.
pub open spec fn all_blocks_wf(blocks: Seq<Option<Block>>) -> bool {
    forall|i: int|
        0 <= i < blocks.len() ==> match #[trigger] blocks[i] {
            Some(block) => block.wf(),
            None => true,
        }
}

} // verus!
