//! What holds of the frame rules in general.

use crate::block::{
    lemma_rotation_cycles, lemma_shape_has_cell, occupied, Block, BlockShape, GRAVITY_DELAY,
    SPAWN_X, SPAWN_Y,
};
use crate::board::{
    any_clearable, cell_inside, clearable, cleared, collision, full_row_set, inside_well,
    lemma_clear_keeps_walls, locked, row_full, top_row_taken, walled,
};
use crate::board_lemmas::{
    lemma_clear_keeps_top_row, lemma_clear_nothing, lemma_cleared_rows,
    lemma_free_block_is_inside, lemma_inside_bounds, lemma_same_cells, stays, taken_between,
};
use crate::game::{
    Events, GameState, GameView, Input, Phase, HARD_DROP_MOVE_DELAY, HOLD_X, HOLD_Y,
    SOFT_DROP_DELAY,
};
use crate::game_state::{
    advance_events, advanced, drop_limit, dropped, fallen, gravity_due, landed, lands,
    lemma_scan_settles, play_events, played, scanned, steered, swapped, takes_hold, turned,
};
use crate::util::lemma_clamped_i32;
use vstd::prelude::*;

verus! {

/// After a game over nothing moves, nothing spawns and nothing is reported
/// until the confirm key is pressed.
pub proof fn lemma_game_over_waits(
    v: GameView,
    input: Input,
    elapsed: u32,
    fresh_hold: BlockShape,
    fresh_lock: BlockShape,
)
    requires
        v.game_over,
        !input.pressed.confirm,
    ensures
        advanced(v, input, elapsed, fresh_hold, fresh_lock) == v,
        advance_events(v, input, elapsed, fresh_hold, fresh_lock) == Events::quiet(),
{
}

/// After a game over the confirm key starts a new session: an empty board,
/// the two fresh blocks, nothing held, and play goes on.
pub proof fn lemma_confirm_restarts(
    v: GameView,
    input: Input,
    elapsed: u32,
    fresh_hold: BlockShape,
    fresh_lock: BlockShape,
)
    requires
        v.game_over,
        input.pressed.confirm,
    ensures
        advanced(v, input, elapsed, fresh_hold, fresh_lock) == GameView::fresh(
            fresh_hold,
            fresh_lock,
        ),
        advanced(v, input, elapsed, fresh_hold, fresh_lock).phase() == Phase::Playing,
        advanced(v, input, elapsed, fresh_hold, fresh_lock).wf(),
        advance_events(v, input, elapsed, fresh_hold, fresh_lock).restarted,
{
    crate::game::lemma_fresh_wf(fresh_hold, fresh_lock);
}

/// The first use of the hold slot: the falling block goes to the hold slot,
/// the upcoming block enters at the spawn cell, unrotated, and a fresh block
/// becomes the upcoming one.
pub proof fn lemma_hold_takes_next(v: GameView, input: Input, fresh: BlockShape)
    requires
        v.wf(),
        input.pressed.hold_swap,
        !v.has_switched,
        v.held_block is None,
    ensures
        swapped(v, input, fresh).block.rotation == 0,
        swapped(v, input, fresh).next_block.rotation == 0,
        swapped(v, input, fresh).held_block == Some(v.block.at(HOLD_X, HOLD_Y)),
        swapped(v, input, fresh).block == v.next_block.at(SPAWN_X, SPAWN_Y),
        swapped(v, input, fresh).next_block == Block::fresh(fresh),
        swapped(v, input, fresh).has_switched,
        swapped(v, input, fresh).block.rotation == v.next_block.rotation,
        swapped(v, input, fresh).block.block_shape == v.next_block.block_shape,
        swapped(v, input, fresh).board == v.board,
{
}

/// With a block in the hold slot, the hold key exchanges it with the falling
/// block and leaves the upcoming block alone.
pub proof fn lemma_hold_exchanges(v: GameView, input: Input, fresh: BlockShape, held: Block)
    requires
        input.pressed.hold_swap,
        !v.has_switched,
        v.held_block == Some(held),
    ensures
        swapped(v, input, fresh).held_block == Some(v.block.at(HOLD_X, HOLD_Y)),
        swapped(v, input, fresh).block == held.at(SPAWN_X, SPAWN_Y),
        swapped(v, input, fresh).next_block == v.next_block,
        swapped(v, input, fresh).has_switched,
{
}

/// The hold slot can be used once between two locks: once it was used, the
/// hold key changes nothing, whatever is pressed and whatever would be
/// drawn.
pub proof fn lemma_hold_once(
    v: GameView,
    first: Input,
    second: Input,
    fresh: BlockShape,
    other: BlockShape,
)
    ensures
        v.has_switched ==> swapped(v, first, fresh) == v,
        takes_hold(v, first) ==> swapped(swapped(v, first, fresh), second, other) == swapped(
            v,
            first,
            fresh,
        ),
        takes_hold(v, first) ==> !takes_hold(swapped(v, first, fresh), second),
{
}

/// A turn that would collide leaves the block as it was; a turn that is made
/// leaves the block free.
pub proof fn lemma_turn_or_stay(v: GameView, input: Input)
    ensures
        turned(v, input).block == v.block || (turned(v, input).block == v.block.rotated_cw()
            && !collision(v.board, turned(v, input).block)),
        turned(v, input).board == v.board,
        !input.pressed.rotate_cw ==> turned(v, input) == v,
{
}

/// Four turns in a row, none of which collides, bring the session back to
/// where it was.
pub proof fn lemma_four_turns(v: GameView, input: Input)
    requires
        v.block.wf(),
        input.pressed.rotate_cw,
        !collision(v.board, v.block.rotated_cw()),
        !collision(v.board, v.block.rotated_cw().rotated_cw()),
        !collision(v.board, v.block.rotated_cw().rotated_cw().rotated_cw()),
        !collision(v.board, v.block),
    ensures
        turned(turned(turned(turned(v, input), input), input), input) == v,
{
    lemma_rotation_cycles(v.block);
}

/// Where a dropped block comes to rest: in its column, at or below where it
/// started, having passed only through free rows, and still inside the
/// well; if it stopped short of the full number of steps, then because the
/// row below is not free, and with its timers set.
pub proof fn lemma_landed(grid: Seq<Seq<u8>>, block: Block, steps: nat)
    requires
        walled(grid),
        block.wf(),
        inside_well(block),
    ensures
        landed(grid, block, steps).wf(),
        inside_well(landed(grid, block, steps)),
        landed(grid, block, steps).block_shape == block.block_shape,
        landed(grid, block, steps).rotation == block.rotation,
        landed(grid, block, steps).position.x == block.position.x,
        block.position.y <= landed(grid, block, steps).position.y <= block.position.y + steps,
        forall|y: i32|
            block.position.y < y <= landed(grid, block, steps).position.y ==> !#[trigger] collision(
                grid,
                block.at(block.position.x, y),
            ),
        landed(grid, block, steps).position.y < block.position.y + steps ==> collision(
            grid,
            landed(grid, block, steps).down(),
        ),
        landed(grid, block, steps).position.y < block.position.y + steps ==> landed(
            grid,
            block,
            steps,
        ).gravity_timer == 0 && landed(grid, block, steps).movement_timer == HARD_DROP_MOVE_DELAY,
    decreases steps,
{
    lemma_inside_bounds(block);
    if steps == 0 {
    } else if collision(grid, block.down()) {
        let rest = Block { gravity_timer: 0, movement_timer: HARD_DROP_MOVE_DELAY, ..block };
        lemma_same_cells(grid, block, rest);
        lemma_same_cells(grid, block.down(), rest.down());
    } else {
        lemma_free_block_is_inside(grid, block.down());
        lemma_landed(grid, block.down(), (steps - 1) as nat);
        let rest = landed(grid, block, steps);
        assert forall|y: i32| block.position.y < y <= rest.position.y implies !#[trigger] collision(
            grid,
            block.at(block.position.x, y),
        ) by {
            if y == block.position.y + 1 {
                assert(block.at(block.position.x, y) == block.down());
            } else {
                assert(block.at(block.position.x, y) == block.down().at(block.position.x, y));
            }
        }
    }
}

/// A hard drop always reaches the floor of its column: the dropped block
/// rests on a row from which it cannot step down, and its gravity timer has
/// run out, so that gravity, unless the block is sent to the hold slot
/// first, locks it in the same frame.
pub proof fn lemma_hard_drop_rests(v: GameView, input: Input)
    requires
        v.wf(),
        input.pressed.hard_drop,
    ensures
        dropped(v, input).board == v.board,
        dropped(v, input).block.position.x == v.block.position.x,
        dropped(v, input).block.position.y >= v.block.position.y,
        collision(v.board, dropped(v, input).block.down()),
        dropped(v, input).block.gravity_timer == 0,
        forall|other: Input, elapsed: u32| #[trigger] lands(dropped(v, input), other, elapsed),
{
    let steps = drop_limit(v.block);
    let rest = landed(v.board, v.block, steps);
    lemma_landed(v.board, v.block, steps);
    lemma_clamped_i32(0, v.block.position.y, 16);
    lemma_inside_bounds(v.block);
    if rest.position.y == v.block.position.y + steps {
        lemma_shape_has_cell(rest.block_shape, rest.rotation);
        let (r, c) = choose|r: int, c: int| occupied(rest.shape(), r, c);
        assert(cell_inside(rest, r, c));
        assert(cell_inside(v.block, r, c));
        assert(false);
    }
}

/// Gravity moves the block one row at a time, and locks it where it stands
/// when the row below is not free: until its timer runs out the block stays
/// on its row; when gravity acts and the row below is free the block is one
/// row further down in the same column; otherwise the board takes the cells
/// of the block, the upcoming block enters at the spawn cell, the fresh
/// block becomes the upcoming one and the hold slot opens again.
pub proof fn lemma_gravity_steps(v: GameView, input: Input, elapsed: u32, fresh: BlockShape)
    ensures
        !gravity_due(v, input, elapsed) ==> fallen(v, input, elapsed, fresh).block.position
            == v.block.position && fallen(v, input, elapsed, fresh).board == v.board,
        gravity_due(v, input, elapsed) && !lands(v, input, elapsed) ==> fallen(
            v,
            input,
            elapsed,
            fresh,
        ).block.position == v.block.down().position && fallen(v, input, elapsed, fresh).board
            == v.board,
        lands(v, input, elapsed) ==> fallen(v, input, elapsed, fresh).board == locked(
            v.board,
            v.block,
        ),
        lands(v, input, elapsed) ==> fallen(v, input, elapsed, fresh).block == Block::spawned(
            v.next_block.block_shape,
        ),
        lands(v, input, elapsed) ==> fallen(v, input, elapsed, fresh).next_block == Block::fresh(
            fresh,
        ),
        lands(v, input, elapsed) ==> !fallen(v, input, elapsed, fresh).has_switched,
{
    if gravity_due(v, input, elapsed) {
        let rested = Block {
            gravity_timer: if input.held.soft_drop {
                SOFT_DROP_DELAY
            } else {
                GRAVITY_DELAY
            },
            ..v.block
        };
        lemma_same_cells(v.board, rested, v.block);
        lemma_same_cells(v.board, rested.down(), v.block.down());
    }
}

/// The line-clear scan takes out every full row below the top row at once:
/// each row that stays has moved down by the number of full rows below it,
/// the rows that this frees at the top are copies of the top row, and, the
/// top row being empty between the walls, no row is full afterwards.
pub proof fn lemma_scan_clears_every_full_row(v: GameView)
    requires
        walled(v.board),
    ensures
        scanned(v).board == cleared(v.board, clearable(v.board)),
        forall|row: int|
            0 <= row < 16 && (row == 0 || !row_full(v.board, row)) ==> scanned(v).board[row
                + #[trigger] taken_between(clearable(v.board), row, 16)] == v.board[row],
        forall|row: int|
            0 <= row <= taken_between(clearable(v.board), 0, 16) ==> #[trigger] scanned(
                v,
            ).board[row] == v.board[0],
        !top_row_taken(v.board) ==> full_row_set(scanned(v).board) == Set::<int>::empty(),
        !top_row_taken(v.board) ==> !any_clearable(scanned(v).board),
        walled(scanned(v).board),
{
    let rows = clearable(v.board);
    lemma_cleared_rows(v.board, rows);
    lemma_scan_settles(v);
    lemma_clear_keeps_walls(v.board, rows, 16);
    assert forall|row: int|
        0 <= row < 16 && (row == 0 || !row_full(v.board, row)) implies scanned(v).board[row
        + #[trigger] taken_between(rows, row, 16)] == v.board[row] by {
        assert(stays(rows, row));
    }
    if !top_row_taken(v.board) {
        let after = scanned(v).board;
        lemma_clear_keeps_top_row(v.board, rows);
        assert(!row_full(after, 0)) by {
            if row_full(after, 0) {
                assert(after[0][1] != 0);
            }
        }
        assert forall|row: int| !full_row_set(after).contains(row) by {
            if 1 <= row < 16 && row_full(after, row) {
                assert(any_clearable(after));
            }
        }
        assert(full_row_set(after) =~= Set::<int>::empty());
    }
}

/// With no full row below the top row, the line-clear scan changes nothing.
pub proof fn lemma_scan_without_full_row(v: GameView)
    requires
        v.board.len() == 16,
        !any_clearable(v.board),
    ensures
        scanned(v) == v,
{
    lemma_clear_nothing(v.board, clearable(v.board), 16);
}

/// A frame of play in which the block does not lock leaves the board of a
/// settled session as it is, reports no cleared line and no game over, and
/// leaves the game going.
pub proof fn lemma_frame_without_lock_keeps_board(
    v: GameView,
    input: Input,
    elapsed: u32,
    fresh_hold: BlockShape,
    fresh_lock: BlockShape,
)
    requires
        v.board.len() == 16,
        v.settled(),
        !v.game_over,
        !play_events(v, input, elapsed, fresh_hold, fresh_lock).piece_locked,
    ensures
        played(v, input, elapsed, fresh_hold, fresh_lock).board == v.board,
        !played(v, input, elapsed, fresh_hold, fresh_lock).game_over,
        !play_events(v, input, elapsed, fresh_hold, fresh_lock).line_cleared,
        !play_events(v, input, elapsed, fresh_hold, fresh_lock).game_over_entered,
{
    let steering = steered(
        swapped(dropped(turned(v, input), input), input, fresh_hold),
        input,
        elapsed,
    );
    assert(steering.board == v.board);
    lemma_gravity_steps(steering, input, elapsed, fresh_lock);
    let falling = fallen(steering, input, elapsed, fresh_lock);
    assert(falling.board == v.board);
    lemma_scan_without_full_row(falling);
}

/// On the menu screen the phase is the menu, whatever the other flags say;
/// else the game-over flag tells playing from game over.
pub proof fn lemma_phases(v: GameView)
    ensures
        v.phase() == Phase::Menu <==> v.state == GameState::Menu,
        v.phase() == Phase::GameOver <==> v.state == GameState::Game && v.game_over,
        v.phase() == Phase::Playing <==> v.state == GameState::Game && !v.game_over,
{
}

} // verus!
