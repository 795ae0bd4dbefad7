//! Damage visuals: moves a damaged block to the next more damaged state of
//! the table and shows the visual of that state.

use vstd::prelude::*;
use crate::components::Block;
use crate::config::BlockConfig;
use crate::data::PauseState;

verus! {

/// The damage state of every block in the slots is an index into a table of
/// `states` entries.
pub open spec fn states_in_table(blocks: Seq<Option<Block>>, states: nat) -> bool {
    forall|i: int|
        0 <= i < blocks.len() ==> match #[trigger] blocks[i] {
            Some(block) => block.cur_damage_state < states,
            None => true,
        }
}

/// Whether the damage state of every block in the slots is an index into a
/// table of `states` entries.
pub fn check_states(blocks: &Vec<Option<Block>>, states: usize) -> (ok: bool)
    ensures
        ok == states_in_table(blocks@, states as nat),
{
    let mut n: usize = 0;
    while n < blocks.len()
        invariant
            n <= blocks@.len(),
            forall|i: int|
                0 <= i < n ==> match #[trigger] blocks@[i] {
                    Some(block) => block.cur_damage_state < states,
                    None => true,
                },
        decreases blocks@.len() - n,
    {
        let fits = match &blocks[n] {
            Some(block) => block.cur_damage_state < states,
            None => true,
        };
        if !fits {
            assert(match blocks@[n as int] {
                Some(block) => !(block.cur_damage_state < states),
                None => false,
            });
            return false;
        }
        n += 1;
    }
    true
}

/// The block shows too little damage: it is not destroyed, and the hits it
/// can still take are below the threshold of its damage state.
pub open spec fn needs_restyle(block: Block, table: Seq<(usize, u32)>) -> bool {
    block.hits_remaining() < table[block.cur_damage_state as int].1 && block.cur_hits
        != block.max_hits
}

/// The next more damaged state; the most damaged state is its own successor.
pub open spec fn next_damage_state(state: usize) -> usize {
    if state > 0 {
        (state - 1) as usize
    } else {
        0
    }
}

/// The block after the damage check: a block that shows too little damage
/// moves one state on and shows the visual of that state.
pub open spec fn restyled(block: Block, table: Seq<(usize, u32)>) -> Block {
    if needs_restyle(block, table) {
        Block {
            cur_damage_state: next_damage_state(block.cur_damage_state),
            sprite_number: table[next_damage_state(block.cur_damage_state) as int].0,
            ..block
        }
    } else {
        block
    }
}

/// The slot after the damage check.
pub open spec fn restyled_slot(slot: Option<Block>, table: Seq<(usize, u32)>) -> Option<Block> {
    match slot {
        Some(block) => Some(restyled(block, table)),
        None => None,
    }
}

/// The slots after the damage check.
pub open spec fn restyled_all(
    blocks: Seq<Option<Block>>,
    table: Seq<(usize, u32)>,
) -> Seq<Option<Block>> {
    Seq::new(blocks.len(), |i: int| restyled_slot(blocks[i], table))
}

/// The damage check never moves a block to a less damaged state, moves it
/// by at most one state, and changes nothing but the state and the visual.
pub proof fn lemma_restyle_monotone(block: Block, table: Seq<(usize, u32)>)
    ensures
        restyled(block, table).cur_damage_state <= block.cur_damage_state,
        block.cur_damage_state - restyled(block, table).cur_damage_state <= 1,
        restyled(block, table) == (Block {
            cur_damage_state: restyled(block, table).cur_damage_state,
            sprite_number: restyled(block, table).sprite_number,
            ..block
        }),
{
}

/// The damage check keeps every damage state in the table.
pub proof fn lemma_restyle_in_table(blocks: Seq<Option<Block>>, table: Seq<(usize, u32)>)
    requires
        states_in_table(blocks, table.len()),
    ensures
        states_in_table(restyled_all(blocks, table), table.len()),
{
    assert forall|i: int| 0 <= i < blocks.len() implies match #[trigger] restyled_all(
        blocks,
        table,
    )[i] {
        Some(block) => block.cur_damage_state < table.len(),
        None => true,
    } by {
        assert(restyled_all(blocks, table)[i] == restyled_slot(blocks[i], table));
    }
}

/// Damage visuals.
pub struct BlockStateSystem;

impl BlockStateSystem {
    /// Checks the damage of every block, unless the match is paused.
    pub fn run(
        &mut self,
        blocks: &mut Vec<Option<Block>>,
        block_config: &BlockConfig,
        pause_state: &PauseState,
    )
        requires
            states_in_table(old(blocks)@, block_config.damage_states@.len()),
        ensures
            pause_state.paused ==> final(blocks)@ == old(blocks)@,
            !pause_state.paused ==> final(blocks)@ == restyled_all(
                old(blocks)@,
                block_config.damage_states@,
            ),
            states_in_table(final(blocks)@, block_config.damage_states@.len()),
    {
        if pause_state.paused {
            return ;
        }
        let mut n: usize = 0;
        while n < blocks.len()
            invariant
                n <= blocks@.len(),
                blocks@.len() == old(blocks)@.len(),
                states_in_table(old(blocks)@, block_config.damage_states@.len()),
                forall|i: int| n <= i < blocks@.len() ==> #[trigger] blocks@[i] == old(blocks)@[i],
                forall|i: int|
                    0 <= i < n ==> #[trigger] blocks@[i] == restyled_slot(
                        old(blocks)@[i],
                        block_config.damage_states@,
                    ),
            decreases blocks@.len() - n,
        {
            assert(blocks@[n as int] == old(blocks)@[n as int]);
            if let Some(block) = blocks[n] {
                let threshold: u32 = block_config.damage_states[block.cur_damage_state].1;
                if (block.max_hits as i64 - block.cur_hits as i64) < threshold as i64
                    && block.cur_hits != block.max_hits {
                    let state: usize = if block.cur_damage_state > 0 {
                        block.cur_damage_state - 1
                    } else {
                        0
                    };
                    let mut shown = block;
                    shown.cur_damage_state = state;
                    shown.sprite_number = block_config.damage_states[state].0;
                    blocks.set(n, Some(shown));
                }
            }
            n += 1;
        }
        proof {
            assert(blocks@ =~= restyled_all(old(blocks)@, block_config.damage_states@));
            lemma_restyle_in_table(old(blocks)@, block_config.damage_states@);
        }
    }
}

} // verus!
