//! One frame of play: rotation, hard drop, hold, sideways movement, gravity
//! and lock, the line-clear scan, and the game-over test, in that order.
//!
//! Each step is a function of its own with an exact contract over the view
//! of the session. [`advance_game`] runs them in order with the shapes of the
//! blocks to come passed in; [`update_game`] draws those shapes and calls it.

use crate::block::{Block, BlockShape, GRAVITY_DELAY, SPAWN_X, SPAWN_Y};
use crate::board::{
    any_clearable, any_marked, board_sized, clearable, cleared, collision, full_row_set, locked,
    marked, row_full, row_walled, top_row_taken, walled,
};
use crate::board_lemmas::{
    lemma_clear_keeps_top_row, lemma_clear_leaves_no_full_row, lemma_free_block_is_inside,
    lemma_inside_bounds, lemma_same_cells,
};
use crate::game::{
    lemma_spawn_inside, Events, Game, GameView, Input, HARD_DROP_MOVE_DELAY, HOLD_X, HOLD_Y,
    MOVE_REPEAT, SOFT_DROP_DELAY,
};
use crate::util::{clamp_range, clamped, lemma_clamped_i32};
use vstd::prelude::*;

verus! {

/// Rotation. On the rotate key the block turns a quarter clockwise, unless
/// it would collide: then it stays as it is. No other position is tried.
pub open spec fn turned(v: GameView, input: Input) -> GameView {
    if input.pressed.rotate_cw && !collision(v.board, v.block.rotated_cw()) {
        GameView { block: v.block.rotated_cw(), ..v }
    } else {
        v
    }
}

/// Where a block comes to rest when it is dropped for at most `steps` rows:
/// on the first row from which one more step down collides, with its gravity
/// timer run out so that it locks in the same frame.
pub open spec fn landed(grid: Seq<Seq<u8>>, block: Block, steps: nat) -> Block
    decreases steps,
{
    if steps == 0 {
        block
    } else if collision(grid, block.down()) {
        Block { gravity_timer: 0, movement_timer: HARD_DROP_MOVE_DELAY, ..block }
    } else {
        landed(grid, block.down(), (steps - 1) as nat)
    }
}

/// The number of rows between a block and the floor, which bounds a drop.
pub open spec fn drop_limit(block: Block) -> nat {
    (16 - clamped(0i32, block.position.y, 16i32)) as nat
}

/// Hard drop. On the hard-drop key the block falls to where it comes to rest.
pub open spec fn dropped(v: GameView, input: Input) -> GameView {
    if input.pressed.hard_drop {
        GameView { block: landed(v.board, v.block, drop_limit(v.block)), ..v }
    } else {
        v
    }
}

/// Whether the hold key is taken: it is pressed and the hold slot was not
/// used since the last lock.
pub open spec fn takes_hold(v: GameView, input: Input) -> bool {
    input.pressed.hold_swap && !v.has_switched
}

/// Hold. On the hold key, once between two locks, the falling block
/// goes to the hold slot and the block that was held, or else the upcoming
/// block, enters at the spawn cell; in the latter case a block of shape
/// `fresh` becomes the upcoming one. Both blocks keep their rotation and
/// their timers: only their places change.
pub open spec fn swapped(v: GameView, input: Input, fresh: BlockShape) -> GameView {
    if takes_hold(v, input) {
        GameView {
            has_switched: true,
            held_block: Some(v.block.at(HOLD_X, HOLD_Y)),
            block: match v.held_block {
                Some(held) => held.at(SPAWN_X, SPAWN_Y),
                None => v.next_block.at(SPAWN_X, SPAWN_Y),
            },
            next_block: if v.held_block is None {
                Block::fresh(fresh)
            } else {
                v.next_block
            },
            ..v
        }
    } else {
        v
    }
}

/// Sideways movement. While a direction key is down the block moves one column each
/// time its movement timer runs out, left if the left key is down and else
/// right, unless it would collide; with no direction key down the timer is
/// reset so that the next press moves at once.
pub open spec fn steered(v: GameView, input: Input, elapsed: u32) -> GameView {
    if input.held.move_left || input.held.move_right {
        if elapsed >= v.block.movement_timer {
            let rested = Block { movement_timer: MOVE_REPEAT, ..v.block };
            let moved = rested.beside(
                if input.held.move_left {
                    -1
                } else {
                    1
                },
            );
            GameView {
                block: if collision(v.board, moved) {
                    rested
                } else {
                    moved
                },
                ..v
            }
        } else {
            GameView {
                block: Block {
                    movement_timer: (v.block.movement_timer - elapsed) as u32,
                    ..v.block
                },
                ..v
            }
        }
    } else {
        GameView { block: Block { movement_timer: 0, ..v.block }, ..v }
    }
}

/// Gravity acts in this frame: the gravity timer runs out or the soft-drop
/// key went down.
pub open spec fn gravity_due(v: GameView, input: Input, elapsed: u32) -> bool {
    elapsed >= v.block.gravity_timer || input.pressed.soft_drop
}

/// The block locks in this frame: gravity acts and the row below is not
/// free.
pub open spec fn lands(v: GameView, input: Input, elapsed: u32) -> bool {
    gravity_due(v, input, elapsed) && collision(v.board, v.block.down())
}

/// Gravity. When gravity acts the block moves down a row; if it cannot, it
/// is locked in where it stands, the upcoming block enters at the spawn cell,
/// a block of shape `fresh` becomes the upcoming one, and the hold slot may
/// be used again.
pub open spec fn fallen(v: GameView, input: Input, elapsed: u32, fresh: BlockShape) -> GameView {
    if gravity_due(v, input, elapsed) {
        let rested = Block {
            gravity_timer: if input.held.soft_drop {
                SOFT_DROP_DELAY
            } else {
                GRAVITY_DELAY
            },
            ..v.block
        };
        if collision(v.board, rested.down()) {
            GameView {
                has_switched: false,
                board: locked(v.board, rested),
                block: Block::spawned(v.next_block.block_shape),
                next_block: Block::fresh(fresh),
                ..v
            }
        } else {
            GameView { block: rested.down(), ..v }
        }
    } else {
        GameView {
            block: Block { gravity_timer: (v.block.gravity_timer - elapsed) as u32, ..v.block },
            ..v
        }
    }
}

/// The line-clear scan. Every full row below the top row is taken out in
/// the frame in which it is found: the rows above each of them move down by
/// one, and the top row is left as it is.
pub open spec fn scanned(v: GameView) -> GameView {
    GameView { board: cleared(v.board, clearable(v.board)), ..v }
}

/// The game-over test. The game is over once the top row holds a cell.
pub open spec fn judged(v: GameView) -> GameView {
    if top_row_taken(v.board) {
        GameView { game_over: true, ..v }
    } else {
        v
    }
}

/// The session after the steps of a frame of play that move the block:
/// rotation, hard drop, hold, sideways movement and gravity.
pub open spec fn moved(
    v: GameView,
    input: Input,
    elapsed: u32,
    fresh_hold: BlockShape,
    fresh_lock: BlockShape,
) -> GameView {
    fallen(
        steered(swapped(dropped(turned(v, input), input), input, fresh_hold), input, elapsed),
        input,
        elapsed,
        fresh_lock,
    )
}

/// The session after a whole frame of play.
pub open spec fn played(
    v: GameView,
    input: Input,
    elapsed: u32,
    fresh_hold: BlockShape,
    fresh_lock: BlockShape,
) -> GameView {
    judged(scanned(moved(v, input, elapsed, fresh_hold, fresh_lock)))
}

/// What a frame of play reports.
pub open spec fn play_events(
    v: GameView,
    input: Input,
    elapsed: u32,
    fresh_hold: BlockShape,
    fresh_lock: BlockShape,
) -> Events {
    let steering = steered(
        swapped(dropped(turned(v, input), input), input, fresh_hold),
        input,
        elapsed,
    );
    let falling = fallen(steering, input, elapsed, fresh_lock);
    Events {
        hard_dropped: input.pressed.hard_drop,
        switched: takes_hold(v, input),
        piece_locked: lands(steering, input, elapsed),
        line_cleared: any_clearable(falling.board),
        game_over_entered: top_row_taken(scanned(falling).board),
        ..Events::quiet()
    }
}

/// The session after one frame. After a game over nothing moves until the
/// confirm key starts a new session with blocks of the shapes `fresh_hold`
/// and `fresh_lock`; otherwise the frame is a frame of play, which takes
/// `fresh_hold` for the upcoming block when the hold slot is first filled
/// and `fresh_lock` for the upcoming block when a block locks.
pub open spec fn advanced(
    v: GameView,
    input: Input,
    elapsed: u32,
    fresh_hold: BlockShape,
    fresh_lock: BlockShape,
) -> GameView {
    if v.game_over {
        if input.pressed.confirm {
            GameView::fresh(fresh_hold, fresh_lock)
        } else {
            v
        }
    } else {
        played(v, input, elapsed, fresh_hold, fresh_lock)
    }
}

/// What one frame reports.
pub open spec fn advance_events(
    v: GameView,
    input: Input,
    elapsed: u32,
    fresh_hold: BlockShape,
    fresh_lock: BlockShape,
) -> Events {
    if v.game_over {
        Events { restarted: input.pressed.confirm, ..Events::quiet() }
    } else {
        play_events(v, input, elapsed, fresh_hold, fresh_lock)
    }
}

/// The rotation step of a frame of play; see [`turned`].
pub fn rotate_block(game: &mut Game, input: &Input)
    requires
        old(game).wf(),
    ensures
        final(game)@ == turned(old(game)@, *input),
        final(game).wf(),
{
    if input.pressed.rotate_cw {
        game.block.rotate_cw();
        if game.block_collides() {
            game.block.rotate_ccw();
        } else {
            proof {
                lemma_free_block_is_inside(game@.board, game.block);
            }
        }
    }
}

/// The hard-drop step of a frame of play; see [`dropped`]. Tells whether the key was
/// pressed.
pub fn hard_drop(game: &mut Game, input: &Input) -> (done: bool)
    requires
        old(game).wf(),
    ensures
        final(game)@ == dropped(old(game)@, *input),
        final(game).wf(),
        done == input.pressed.hard_drop,
{
    if input.pressed.hard_drop {
        let start = clamp_range(0i32, game.block.position.y, 16i32);
        proof {
            lemma_clamped_i32(0, game.block.position.y, 16);
        }
        let mut left: i32 = 16 - start;
        while left > 0
            invariant
                0 <= left <= 16,
                input.pressed.hard_drop,
                game.wf(),
                game@ == (GameView { block: game.block, ..old(game)@ }),
                landed(old(game)@.board, old(game).block, drop_limit(old(game).block)) == landed(
                    game@.board,
                    game.block,
                    left as nat,
                ),
            decreases left,
        {
            proof {
                lemma_inside_bounds(game.block);
            }
            let ghost before = game.block;
            game.block.position.y = game.block.position.y + 1;
            assert(game.block == before.down());
            if game.block_collides() {
                game.block.position.y = game.block.position.y - 1;
                game.block.gravity_timer = 0;
                game.block.movement_timer = HARD_DROP_MOVE_DELAY;
                proof {
                    lemma_same_cells(game@.board, before, game.block);
                    assert(game.block == (Block {
                        gravity_timer: 0,
                        movement_timer: HARD_DROP_MOVE_DELAY,
                        ..before
                    }));
                }
                return true;
            }
            proof {
                lemma_free_block_is_inside(game@.board, game.block);
            }
            left = left - 1;
        }
        true
    } else {
        false
    }
}

/// The hold step of a frame of play; see [`swapped`]. Tells whether the hold
/// slot was used.
pub fn hold_block(game: &mut Game, input: &Input, fresh: BlockShape) -> (done: bool)
    requires
        old(game).wf(),
    ensures
        final(game)@ == swapped(old(game)@, *input, fresh),
        final(game).wf(),
        done == takes_hold(old(game)@, *input),
        done && old(game).held_block is None ==> final(game).block.rotation == 0,
{
    if input.pressed.hold_swap && !game.has_switched {
        game.has_switched = true;
        let old_held = game.held_block;
        let mut to_hold = game.block;
        to_hold.position.x = HOLD_X;
        to_hold.position.y = HOLD_Y;
        game.held_block = Some(to_hold);
        let mut enters = match old_held {
            Some(held) => held,
            None => game.next_block,
        };
        proof {
            lemma_spawn_inside(enters);
        }
        enters.position.x = SPAWN_X;
        enters.position.y = SPAWN_Y;
        game.block = enters;
        if old_held.is_none() {
            game.next_block = Block::new(fresh);
        }
        true
    } else {
        false
    }
}

/// The sideways step of a frame of play; see [`steered`].
pub fn steer_block(game: &mut Game, input: &Input, elapsed: u32)
    requires
        old(game).wf(),
    ensures
        final(game)@ == steered(old(game)@, *input, elapsed),
        final(game).wf(),
{
    if input.held.move_left || input.held.move_right {
        if elapsed >= game.block.movement_timer {
            proof {
                lemma_inside_bounds(game.block);
            }
            game.block.movement_timer = MOVE_REPEAT;
            let dx: i32 = if input.held.move_left {
                -1
            } else {
                1
            };
            game.block.position.x = game.block.position.x + dx;
            if game.block_collides() {
                game.block.position.x = game.block.position.x - dx;
            } else {
                proof {
                    lemma_free_block_is_inside(game@.board, game.block);
                }
            }
        } else {
            game.block.movement_timer = game.block.movement_timer - elapsed;
        }
    } else {
        game.block.movement_timer = 0;
    }
    proof {
        if game.block.position == old(game).block.position {
            lemma_same_cells(game@.board, old(game).block, game.block);
        }
    }
}

/// The gravity step of a frame of play; see [`fallen`]. Tells whether the block
/// locked.
pub fn apply_gravity(game: &mut Game, input: &Input, elapsed: u32, fresh: BlockShape) -> (done:
    bool)
    requires
        old(game).wf(),
    ensures
        final(game)@ == fallen(old(game)@, *input, elapsed, fresh),
        final(game).wf(),
        done == lands(old(game)@, *input, elapsed),
{
    if elapsed >= game.block.gravity_timer || input.pressed.soft_drop {
        proof {
            lemma_inside_bounds(game.block);
        }
        if input.held.soft_drop {
            game.block.gravity_timer = SOFT_DROP_DELAY;
        } else {
            game.block.gravity_timer = GRAVITY_DELAY;
        }
        let ghost rested = game.block;
        game.block.position.y = game.block.position.y + 1;
        proof {
            assert(game.block == rested.down());
            lemma_same_cells(game@.board, rested.down(), old(game).block.down());
            lemma_same_cells(game@.board, rested, old(game).block);
        }
        if game.block_collides() {
            game.has_switched = false;
            game.block.position.y = game.block.position.y - 1;
            assert(game.block == rested);
            let at_rest = game.block;
            game.placed_blocks.lock(&at_rest);
            game.block = Block::spawn(game.next_block.block_shape);
            game.next_block = Block::new(fresh);
            proof {
                lemma_spawn_inside(Block::fresh(old(game).next_block.block_shape));
                assert(game.block == Block::fresh(old(game).next_block.block_shape).at(
                    SPAWN_X,
                    SPAWN_Y,
                ));
            }
            true
        } else {
            proof {
                lemma_free_block_is_inside(game@.board, game.block);
            }
            false
        }
    } else {
        game.block.gravity_timer = game.block.gravity_timer - elapsed;
        proof {
            lemma_same_cells(game@.board, old(game).block, game.block);
        }
        false
    }
}

/// The line-clear scan of a frame of play; see [`scanned`]. Tells whether
/// rows were taken out.
pub fn scan_lines(game: &mut Game) -> (done: bool)
    requires
        old(game).wf(),
    ensures
        final(game)@ == scanned(old(game)@),
        final(game).wf(),
        done == any_clearable(old(game)@.board),
{
    let mut rows = game.placed_blocks.full_rows();
    rows[0] = false;
    assert(marked(rows) =~= clearable(game@.board));
    let done = any_marked(&rows);
    proof {
        if done {
            let row = choose|row: int| marked(rows).contains(row);
            assert(row_full(game@.board, row));
        }
        if any_clearable(game@.board) {
            let row = choose|row: int| 1 <= row < 16 && row_full(game@.board, row);
            assert(marked(rows).contains(row));
        }
    }
    game.placed_blocks.clear_rows(&rows);
    done
}

/// The game-over test of a frame of play; see [`judged`]. Tells whether the top row
/// holds a cell.
pub fn check_game_over(game: &mut Game) -> (over: bool)
    requires
        old(game).wf(),
    ensures
        final(game)@ == judged(old(game)@),
        final(game).wf(),
        over == top_row_taken(old(game)@.board),
{
    if game.placed_blocks.is_game_over() {
        game.game_over = true;
        true
    } else {
        false
    }
}

/// After the line-clear scan no row below the top row is full, unless the
/// top row holds a cell; so the scan and the game-over test together leave
/// the session settled.
pub proof fn lemma_scan_settles(v: GameView)
    requires
        walled(v.board),
    ensures
        !top_row_taken(v.board) ==> !any_clearable(scanned(v).board),
        top_row_taken(scanned(v).board) == top_row_taken(v.board),
        judged(scanned(v)).settled(),
{
    lemma_clear_keeps_top_row(v.board, clearable(v.board));
    if !top_row_taken(v.board) {
        assert(!row_full(v.board, 0)) by {
            if row_full(v.board, 0) {
                assert(v.board[0][1] != 0);
            }
        }
        assert(clearable(v.board) =~= full_row_set(v.board));
        assert(board_sized(v.board)) by {
            assert forall|row: int| 0 <= row < 16 implies (#[trigger] v.board[row]).len()
                == 12 by {
                assert(row_walled(v.board[row]));
            }
        }
        lemma_clear_leaves_no_full_row(v.board);
        let after = scanned(v).board;
        if any_clearable(after) {
            let row = choose|row: int| 1 <= row < 16 && row_full(after, row);
            assert(full_row_set(after).contains(row));
        }
    }
}

/// Advances the session by one frame, given what the player does, the time
/// since the last frame, and the shapes of the blocks to come; see
/// [`advanced`] and [`advance_events`]. Tells whether the game goes on, and
/// what happened.
pub fn advance_game(
    game: &mut Game,
    input: &Input,
    elapsed: u32,
    fresh_hold: BlockShape,
    fresh_lock: BlockShape,
) -> (out: (bool, Events))
    requires
        old(game).wf(),
    ensures
        final(game)@ == advanced(old(game)@, *input, elapsed, fresh_hold, fresh_lock),
        final(game).wf(),
        final(game)@.settled(),
        out.0 == !final(game).game_over,
        out.1 == advance_events(old(game)@, *input, elapsed, fresh_hold, fresh_lock),
{
    let mut events = Events::none();
    if game.game_over {
        if input.pressed.confirm {
            *game = Game::new(fresh_hold, fresh_lock);
            events.restarted = true;
            return (true, events);
        }
        return (false, events);
    }
    rotate_block(game, input);
    events.hard_dropped = hard_drop(game, input);
    events.switched = hold_block(game, input, fresh_hold);
    steer_block(game, input, elapsed);
    events.piece_locked = apply_gravity(game, input, elapsed, fresh_lock);
    proof {
        lemma_scan_settles(game@);
    }
    events.line_cleared = scan_lines(game);
    events.game_over_entered = check_game_over(game);
    (!game.game_over, events)
}

/// Advances the session by one frame, drawing the shapes of the blocks to
/// come at random. Tells whether the game goes on, and what happened.
///
/// Whatever is drawn, the frame is the one that [`advance_game`] makes of
/// the two shapes.
pub fn update_game(game: &mut Game, input: &Input, elapsed: u32) -> (out: (bool, Events))
    requires
        old(game).wf(),
    ensures
        exists|fresh_hold: BlockShape, fresh_lock: BlockShape|
            final(game)@ == #[trigger] advanced(
                old(game)@,
                *input,
                elapsed,
                fresh_hold,
                fresh_lock,
            ) && out.1 == advance_events(old(game)@, *input, elapsed, fresh_hold, fresh_lock),
        final(game).wf(),
        final(game)@.settled(),
        out.0 == !final(game).game_over,
{
    let fresh_hold = BlockShape::random();
    let fresh_lock = BlockShape::random();
    advance_game(game, input, elapsed, fresh_hold, fresh_lock)
}

} // verus!
