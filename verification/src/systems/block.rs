//! Block health: removes the blocks that have taken all their hits, awards
//! their points and counts down the blocks that remain.
//!
//! This step only reads the hits of a block. Collision resolution is the one
//! step that counts a hit.

use vstd::prelude::*;
use crate::components::Block;
use crate::data::{LevelInfo, PauseState, ScoreBoard};
use crate::fixed::{max_int, min_int};
use crate::systems::block_state::states_in_table;

verus! {

/// The slot holds a block that has taken all its hits.
pub open spec fn is_spent_slot(slot: Option<Block>) -> bool {
    match slot {
        Some(block) => block.is_spent(),
        None => false,
    }
}

/// The slot after the health check: a spent block is removed, anything else
/// stays as it is.
pub open spec fn swept_slot(slot: Option<Block>) -> Option<Block> {
    if is_spent_slot(slot) {
        None
    } else {
        slot
    }
}

/// The slots after the health check.
pub open spec fn swept(blocks: Seq<Option<Block>>) -> Seq<Option<Block>> {
    Seq::new(blocks.len(), |i: int| swept_slot(blocks[i]))
}

/// How many of the first `n` slots hold a spent block.
pub open spec fn spent_count(blocks: Seq<Option<Block>>, n: int) -> int
    decreases n,
{
    if n <= 0 {
        0
    } else {
        spent_count(blocks, n - 1) + if is_spent_slot(blocks[n - 1]) {
            1int
        } else {
            0int
        }
    }
}

/// The points that the spent blocks in the first `n` slots are worth: for
/// each of them the hits that it could take.
pub open spec fn spent_points(blocks: Seq<Option<Block>>, n: int) -> int
    decreases n,
{
    if n <= 0 {
        0
    } else {
        spent_points(blocks, n - 1) + if is_spent_slot(blocks[n - 1]) {
            blocks[n - 1].unwrap().max_hits as int
        } else {
            0int
        }
    }
}

/// The score after `points` more points. It stops at the largest score that
/// can be held.
pub open spec fn score_after(score: u32, points: int) -> int {
    min_int(score + points, u32::MAX as int)
}

/// The blocks that remain after `destroyed` of them were destroyed: never
/// fewer than none.
pub open spec fn blocks_left(remaining: usize, destroyed: int) -> int {
    max_int(remaining - destroyed, 0)
}

/// Counts and points of spent blocks are never negative.
pub proof fn lemma_spent_nonnegative(blocks: Seq<Option<Block>>, n: int)
    ensures
        0 <= spent_count(blocks, n),
        0 <= spent_points(blocks, n),
    decreases n,
{
    if n > 0 {
        lemma_spent_nonnegative(blocks, n - 1);
    }
}

/// Where no slot holds a spent block, nothing is counted and nothing is
/// awarded.
pub proof fn lemma_nothing_spent(blocks: Seq<Option<Block>>, n: int)
    requires
        n <= blocks.len(),
        forall|i: int| 0 <= i < blocks.len() ==> !is_spent_slot(#[trigger] blocks[i]),
    ensures
        spent_count(blocks, n) == 0,
        spent_points(blocks, n) == 0,
    decreases n,
{
    if n > 0 {
        lemma_nothing_spent(blocks, n - 1);
    }
}

/// A block is destroyed once: after a health check a second one removes
/// nothing, awards nothing and counts nothing down.
pub proof fn lemma_swept_once(blocks: Seq<Option<Block>>)
    ensures
        swept(swept(blocks)) == swept(blocks),
        spent_count(swept(blocks), blocks.len() as int) == 0,
        spent_points(swept(blocks), blocks.len() as int) == 0,
{
    assert(swept(swept(blocks)) =~= swept(blocks));
    lemma_nothing_spent(swept(blocks), blocks.len() as int);
}

/// Where exactly one slot holds a spent block, the health check awards the
/// hits that this block could take and counts one block down.
pub proof fn lemma_one_spent(blocks: Seq<Option<Block>>, at: int, n: int)
    requires
        0 <= at < blocks.len(),
        0 <= n <= blocks.len(),
        is_spent_slot(blocks[at]),
        forall|i: int| 0 <= i < blocks.len() && i != at ==> !is_spent_slot(#[trigger] blocks[i]),
    ensures
        spent_count(blocks, n) == if at < n {
            1int
        } else {
            0int
        },
        spent_points(blocks, n) == if at < n {
            blocks[at].unwrap().max_hits as int
        } else {
            0int
        },
    decreases n,
{
    if n > 0 {
        lemma_one_spent(blocks, at, n - 1);
    }
}

/// The health check changes no damage state: where every state was an index
/// into a table, it still is.
pub proof fn lemma_swept_keeps_states(blocks: Seq<Option<Block>>, states: nat)
    requires
        states_in_table(blocks, states),
    ensures
        states_in_table(swept(blocks), states),
{
    assert forall|i: int| 0 <= i < blocks.len() implies match #[trigger] swept(blocks)[i] {
        Some(block) => block.cur_damage_state < states,
        None => true,
    } by {
        assert(swept(blocks)[i] == swept_slot(blocks[i]));
    }
}

/// Block health.
pub struct BlockSystem;

impl BlockSystem {
    /// Removes every block that has taken all its hits, unless the match is
    /// paused. Each removed block adds the hits that it could take to the
    /// score and takes one from the count of the remaining blocks.
    pub fn run(
        &mut self,
        blocks: &mut Vec<Option<Block>>,
        pause_state: &PauseState,
        score_board: &mut ScoreBoard,
        level_info: &mut LevelInfo,
    )
        ensures
            pause_state.paused ==> {
                &&& final(blocks)@ == old(blocks)@
                &&& *final(score_board) == *old(score_board)
                &&& *final(level_info) == *old(level_info)
            },
            !pause_state.paused ==> {
                &&& final(blocks)@ == swept(old(blocks)@)
                &&& final(score_board).current_score == score_after(
                    old(score_board).current_score,
                    spent_points(old(blocks)@, old(blocks)@.len() as int),
                )
                &&& final(level_info).num_blocks_remaining == blocks_left(
                    old(level_info).num_blocks_remaining,
                    spent_count(old(blocks)@, old(blocks)@.len() as int),
                )
                &&& final(level_info).num_lives_remaining == old(level_info).num_lives_remaining
            },
            final(score_board).current_score >= old(score_board).current_score,
    {
        if pause_state.paused {
            return ;
        }
        let mut n: usize = 0;
        while n < blocks.len()
            invariant
                n <= blocks@.len(),
                blocks@.len() == old(blocks)@.len(),
                forall|i: int| n <= i < blocks@.len() ==> #[trigger] blocks@[i] == old(blocks)@[i],
                forall|i: int| 0 <= i < n ==> #[trigger] blocks@[i] == swept_slot(old(blocks)@[i]),
                score_board.current_score == score_after(
                    old(score_board).current_score,
                    spent_points(old(blocks)@, n as int),
                ),
                level_info.num_blocks_remaining == blocks_left(
                    old(level_info).num_blocks_remaining,
                    spent_count(old(blocks)@, n as int),
                ),
                level_info.num_lives_remaining == old(level_info).num_lives_remaining,
            decreases blocks@.len() - n,
        {
            proof {
                lemma_spent_nonnegative(old(blocks)@, n as int);
            }
            let spent: Option<u32> = match &blocks[n] {
                Some(block) => if block.cur_hits >= block.max_hits {
                    Some(block.max_hits)
                } else {
                    None
                },
                None => None,
            };
            if let Some(points) = spent {
                score_board.current_score = if points > u32::MAX - score_board.current_score {
                    u32::MAX
                } else {
                    score_board.current_score + points
                };
                if level_info.num_blocks_remaining > 0 {
                    level_info.num_blocks_remaining = level_info.num_blocks_remaining - 1;
                }
                blocks.set(n, None);
            }
            n += 1;
        }
        proof {
            lemma_spent_nonnegative(old(blocks)@, old(blocks)@.len() as int);
            assert(blocks@ =~= swept(old(blocks)@));
        }
    }
}

} // verus!
