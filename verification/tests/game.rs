use rstris::block::{Block, BlockShape, Position, FRAME};
use rstris::board::Board;
use rstris::game::{
    Events, Game, GameState, Input, Keys, Phase, HARD_DROP_MOVE_DELAY, MENU_DELAY, MOVE_REPEAT,
    SOFT_DROP_DELAY,
};
use rstris::game_state::{
    advance_game, apply_gravity, check_game_over, hard_drop, hold_block, rotate_block, scan_lines,
    steer_block, update_game,
};

const EMPTY_ROW: [u8; 12] = [8, 0, 0, 0, 0, 0, 0, 0, 0, 0, 0, 8];

fn quiet() -> Events {
    Events::none()
}

fn idle() -> Input {
    Input::none()
}

fn pressing(set: fn(&mut Keys)) -> Input {
    let mut input = Input::none();
    set(&mut input.pressed);
    input
}

fn holding(set: fn(&mut Keys)) -> Input {
    let mut input = Input::none();
    set(&mut input.held);
    input
}

#[test]
fn the_time_constants_are_in_thousandths_of_a_frame() {
    assert_eq!(FRAME, 1000);
    assert_eq!(MOVE_REPEAT, 7 * FRAME);
    assert_eq!(HARD_DROP_MOVE_DELAY, 6 * FRAME);
    assert_eq!(SOFT_DROP_DELAY, 5 * FRAME);
    assert_eq!(MENU_DELAY, 60 * FRAME);
}

#[test]
fn a_new_session_is_ready_to_play() {
    let game = Game::new(BlockShape::J, BlockShape::Z);
    assert_eq!(
        game,
        Game {
            state: GameState::Game,
            placed_blocks: Board { cells: [EMPTY_ROW; 16] },
            block: Block::spawn(BlockShape::J),
            game_over: false,
            next_block: Block::new(BlockShape::Z),
            held_block: None,
            has_switched: false,
            play: false,
            menu_delay: 60000,
        }
    );
    assert!(game.is_valid());
    assert_eq!(game.phase(), Phase::Playing);
    assert!(!game.block_collides());
}

#[test]
fn an_upright_bar_falls_row_by_row_and_locks_on_the_floor() {
    let mut game = Game::new(BlockShape::I, BlockShape::T);
    // The upright bar fills column 1 of its grid: at x = 4 it falls in column 5.
    game.block.position.x = 4;
    let mut frames = 0;
    let mut steps = Vec::new();
    loop {
        let row = game.block.position.y;
        let (alive, events) = advance_game(&mut game, &idle(), FRAME, BlockShape::O, BlockShape::S);
        frames += 1;
        assert!(alive);
        if events.piece_locked {
            assert_eq!(events, Events { piece_locked: true, ..quiet() });
            break;
        }
        assert_eq!(events, quiet());
        if game.block.position.y != row {
            assert_eq!(game.block.position.y, row + 1);
            assert_eq!(game.block.position.x, 4);
            steps.push(frames);
        }
        assert!(frames < 1000);
    }
    assert_eq!(steps, (1..=12).map(|step| step * 45).collect::<Vec<i32>>());
    assert_eq!(frames, 13 * 45);
    let mut expected = [EMPTY_ROW; 16];
    for row in 12..16 {
        expected[row][5] = 1;
    }
    assert_eq!(game.placed_blocks.cells, expected);
    assert_eq!(game.placed_blocks.cells[15], [8, 0, 0, 0, 0, 1, 0, 0, 0, 0, 0, 8]);
    assert_eq!(game.block, Block::spawn(BlockShape::T));
    assert_eq!(game.next_block, Block::new(BlockShape::S));
    assert!(!game.game_over);
    assert!(game.is_valid());
}

#[test]
fn a_block_that_locks_in_the_top_row_ends_the_game_until_confirm() {
    let mut game = Game::new(BlockShape::I, BlockShape::T);
    for row in 4..16 {
        game.placed_blocks.cells[row][6] = 7;
    }
    assert!(game.is_valid());
    let mut frames = 0;
    let last = loop {
        let (alive, events) = advance_game(&mut game, &idle(), FRAME, BlockShape::O, BlockShape::S);
        frames += 1;
        if !alive {
            break events;
        }
        assert_eq!(events, quiet());
        assert_eq!(game.block.position, Position { x: 5, y: 0 });
    };
    assert_eq!(frames, 45);
    assert_eq!(last, Events { piece_locked: true, game_over_entered: true, ..quiet() });
    assert_eq!(game.placed_blocks.cells[0], [8, 0, 0, 0, 0, 0, 1, 0, 0, 0, 0, 8]);
    assert!(game.placed_blocks.is_game_over());
    assert!(game.game_over);
    assert_eq!(game.phase(), Phase::GameOver);

    // Nothing moves and nothing spawns while the game is over.
    let frozen = game;
    let mut keys = idle();
    keys.pressed.rotate_cw = true;
    keys.pressed.hard_drop = true;
    keys.pressed.hold_swap = true;
    keys.pressed.soft_drop = true;
    keys.held.move_left = true;
    keys.held.soft_drop = true;
    for _ in 0..200 {
        let out = advance_game(&mut game, &keys, FRAME, BlockShape::L, BlockShape::J);
        assert_eq!(out, (false, quiet()));
        assert_eq!(game, frozen);
    }

    // The confirm key starts a new session.
    let out = advance_game(
        &mut game,
        &pressing(|keys| keys.confirm = true),
        FRAME,
        BlockShape::L,
        BlockShape::J,
    );
    assert_eq!(out, (true, Events { restarted: true, ..quiet() }));
    assert_eq!(game, Game::new(BlockShape::L, BlockShape::J));
    assert_eq!(game.phase(), Phase::Playing);
}

#[test]
fn the_first_hold_takes_the_upcoming_block() {
    let mut game = Game::new(BlockShape::I, BlockShape::T);
    game.block.position = Position { x: 3, y: 6 };
    game.block.rotation = 1;
    game.block.gravity_timer = 20000;
    let hold = pressing(|keys| keys.hold_swap = true);
    let (alive, events) = advance_game(&mut game, &hold, FRAME, BlockShape::O, BlockShape::S);
    assert!(alive);
    assert_eq!(events, Events { switched: true, ..quiet() });
    assert_eq!(
        game.held_block,
        Some(Block {
            position: Position { x: 13, y: 7 },
            rotation: 1,
            block_shape: BlockShape::I,
            gravity_timer: 20000,
            movement_timer: 0,
        })
    );
    // The upcoming block came in at the spawn cell and spent this frame there.
    assert_eq!(
        game.block,
        Block {
            position: Position { x: 5, y: 0 },
            rotation: 0,
            block_shape: BlockShape::T,
            gravity_timer: 44000,
            movement_timer: 0,
        }
    );
    assert_eq!(game.next_block, Block::new(BlockShape::O));
    assert!(game.has_switched);

    // A second press before any lock changes nothing but the timers.
    let before = game;
    let (alive, events) = advance_game(&mut game, &hold, FRAME, BlockShape::Z, BlockShape::Z);
    assert!(alive);
    assert_eq!(events, quiet());
    let mut expected = before;
    expected.block.gravity_timer = 43000;
    assert_eq!(game, expected);
}

#[test]
fn a_later_hold_exchanges_the_held_block_and_keeps_the_upcoming_one() {
    let mut game = Game::new(BlockShape::I, BlockShape::T);
    let mut held = Block::new(BlockShape::Z);
    held.position = Position { x: 13, y: 7 };
    held.rotation = 3;
    held.gravity_timer = 9000;
    game.held_block = Some(held);
    let done = hold_block(&mut game, &pressing(|keys| keys.hold_swap = true), BlockShape::O);
    assert!(done);
    assert_eq!(
        game.block,
        Block {
            position: Position { x: 5, y: 0 },
            rotation: 3,
            block_shape: BlockShape::Z,
            gravity_timer: 9000,
            movement_timer: 0,
        }
    );
    assert_eq!(game.held_block, Some(Block { position: Position { x: 13, y: 7 }, ..Block::spawn(BlockShape::I) }));
    assert_eq!(game.next_block, Block::new(BlockShape::T));
    assert!(game.has_switched);
    assert!(game.is_valid());
}

#[test]
fn the_hold_slot_opens_again_after_a_lock() {
    let mut game = Game::new(BlockShape::O, BlockShape::T);
    let hold = pressing(|keys| keys.hold_swap = true);
    assert!(hold_block(&mut game, &hold, BlockShape::S));
    assert!(!hold_block(&mut game, &hold, BlockShape::S));
    let drop = pressing(|keys| keys.hard_drop = true);
    let (_, events) = advance_game(&mut game, &drop, FRAME, BlockShape::S, BlockShape::S);
    assert!(events.piece_locked);
    assert!(!game.has_switched);
    assert!(hold_block(&mut game, &hold, BlockShape::S));
}

#[test]
fn a_hard_drop_lands_and_locks_in_the_same_frame() {
    let mut game = Game::new(BlockShape::O, BlockShape::T);
    let drop = pressing(|keys| keys.hard_drop = true);
    let (alive, events) = advance_game(&mut game, &drop, FRAME, BlockShape::L, BlockShape::S);
    assert!(alive);
    assert_eq!(events, Events { hard_dropped: true, piece_locked: true, ..quiet() });
    let mut expected = [EMPTY_ROW; 16];
    expected[14] = [8, 0, 0, 0, 0, 0, 2, 2, 0, 0, 0, 8];
    expected[15] = [8, 0, 0, 0, 0, 0, 2, 2, 0, 0, 0, 8];
    assert_eq!(game.placed_blocks.cells, expected);
    assert_eq!(game.block, Block::spawn(BlockShape::T));
    assert_eq!(game.next_block, Block::new(BlockShape::S));
}

#[test]
fn a_hard_drop_stops_on_the_stack_and_sets_the_timers() {
    let mut game = Game::new(BlockShape::I, BlockShape::T);
    game.placed_blocks.cells[10][6] = 4;
    assert!(hard_drop(&mut game, &pressing(|keys| keys.hard_drop = true)));
    assert_eq!(
        game.block,
        Block {
            position: Position { x: 5, y: 6 },
            rotation: 0,
            block_shape: BlockShape::I,
            gravity_timer: 0,
            movement_timer: 6000,
        }
    );
    assert!(!game.block_collides());
    assert!(!hard_drop(&mut game, &idle()));
}

#[test]
fn a_hard_drop_from_a_blocked_place_stays_there() {
    let mut game = Game::new(BlockShape::O, BlockShape::T);
    game.placed_blocks.cells[3][6] = 4;
    assert!(hard_drop(&mut game, &pressing(|keys| keys.hard_drop = true)));
    assert_eq!(game.block.position, Position { x: 5, y: 0 });
    assert_eq!(game.block.gravity_timer, 0);
}

#[test]
fn a_turn_is_made_where_there_is_room() {
    let mut game = Game::new(BlockShape::I, BlockShape::T);
    let turn = pressing(|keys| keys.rotate_cw = true);
    for expected in [1, 2, 3, 0] {
        rotate_block(&mut game, &turn);
        assert_eq!(game.block.rotation, expected);
    }
    rotate_block(&mut game, &idle());
    assert_eq!(game.block.rotation, 0);
}

#[test]
fn a_turn_into_the_wall_is_taken_back() {
    let mut game = Game::new(BlockShape::I, BlockShape::T);
    // Upright in column 10; lying it would reach column 12.
    game.block.position = Position { x: 9, y: 4 };
    let before = game;
    rotate_block(&mut game, &pressing(|keys| keys.rotate_cw = true));
    assert_eq!(game, before);
}

#[test]
fn a_turn_into_the_stack_is_taken_back_from_every_rotation() {
    for rotation in 0..4 {
        let mut game = Game::new(BlockShape::T, BlockShape::T);
        game.block.rotation = rotation;
        game.block.position = Position { x: 4, y: 5 };
        let cells = game.block.get_shape();
        // Take every place around the block that it does not fill.
        for row in 0..4 {
            for col in 0..4 {
                if cells[row][col] == 0 {
                    game.placed_blocks.cells[5 + row][4 + col] = 6;
                }
            }
        }
        assert!(game.is_valid());
        let before = game;
        rotate_block(&mut game, &pressing(|keys| keys.rotate_cw = true));
        assert_eq!(game, before);
    }
}

#[test]
fn a_held_direction_moves_at_once_and_then_every_seven_frames() {
    let mut game = Game::new(BlockShape::T, BlockShape::T);
    let left = holding(|keys| keys.move_left = true);
    let mut columns = Vec::new();
    for _ in 0..16 {
        steer_block(&mut game, &left, FRAME);
        columns.push(game.block.position.x);
    }
    assert_eq!(columns, vec![4, 4, 4, 4, 4, 4, 4, 3, 3, 3, 3, 3, 3, 3, 2, 2]);
    assert_eq!(game.block.movement_timer, 6000);
    steer_block(&mut game, &idle(), FRAME);
    assert_eq!(game.block.movement_timer, 0);
    assert_eq!(game.block.position.x, 2);
    let right = holding(|keys| keys.move_right = true);
    steer_block(&mut game, &right, FRAME);
    assert_eq!(game.block.position.x, 3);
    assert_eq!(game.block.movement_timer, 7000);
}

#[test]
fn left_wins_when_both_directions_are_held() {
    let mut game = Game::new(BlockShape::T, BlockShape::T);
    let mut both = idle();
    both.held.move_left = true;
    both.held.move_right = true;
    steer_block(&mut game, &both, FRAME);
    assert_eq!(game.block.position, Position { x: 4, y: 0 });
}

#[test]
fn a_move_into_the_wall_is_taken_back_but_restarts_the_timer() {
    let mut game = Game::new(BlockShape::T, BlockShape::T);
    game.block.position.x = 1;
    steer_block(&mut game, &holding(|keys| keys.move_left = true), FRAME);
    assert_eq!(game.block.position, Position { x: 1, y: 0 });
    assert_eq!(game.block.movement_timer, 7000);
    game.block.position.x = 8;
    game.block.movement_timer = 0;
    steer_block(&mut game, &holding(|keys| keys.move_right = true), FRAME);
    assert_eq!(game.block.position, Position { x: 8, y: 0 });
}

#[test]
fn a_move_into_the_stack_is_taken_back() {
    let mut game = Game::new(BlockShape::O, BlockShape::T);
    game.placed_blocks.cells[2][8] = 1;
    steer_block(&mut game, &holding(|keys| keys.move_right = true), FRAME);
    assert_eq!(game.block.position.x, 5);
    game.placed_blocks.cells[2][8] = 0;
    game.block.movement_timer = 0;
    steer_block(&mut game, &holding(|keys| keys.move_right = true), FRAME);
    assert_eq!(game.block.position.x, 6);
}

#[test]
fn the_movement_timer_counts_down_by_the_time_that_passed() {
    let mut game = Game::new(BlockShape::O, BlockShape::T);
    game.block.movement_timer = 7000;
    let left = holding(|keys| keys.move_left = true);
    steer_block(&mut game, &left, 2500);
    assert_eq!((game.block.position.x, game.block.movement_timer), (5, 4500));
    steer_block(&mut game, &left, 4499);
    assert_eq!((game.block.position.x, game.block.movement_timer), (5, 1));
    steer_block(&mut game, &left, 1);
    assert_eq!((game.block.position.x, game.block.movement_timer), (4, 7000));
    steer_block(&mut game, &left, u32::MAX);
    assert_eq!((game.block.position.x, game.block.movement_timer), (3, 7000));
}

#[test]
fn gravity_waits_for_its_timer() {
    let mut game = Game::new(BlockShape::O, BlockShape::T);
    assert!(!apply_gravity(&mut game, &idle(), 44999, BlockShape::S));
    assert_eq!((game.block.position.y, game.block.gravity_timer), (0, 1));
    assert!(!apply_gravity(&mut game, &idle(), 0, BlockShape::S));
    assert_eq!((game.block.position.y, game.block.gravity_timer), (0, 1));
    assert!(!apply_gravity(&mut game, &idle(), 1, BlockShape::S));
    assert_eq!((game.block.position.y, game.block.gravity_timer), (1, 45000));
    assert!(!apply_gravity(&mut game, &idle(), u32::MAX, BlockShape::S));
    assert_eq!((game.block.position.y, game.block.gravity_timer), (2, 45000));
}

#[test]
fn the_soft_drop_key_pulls_at_once_and_then_every_five_frames() {
    let mut game = Game::new(BlockShape::O, BlockShape::T);
    let mut down = idle();
    down.pressed.soft_drop = true;
    down.held.soft_drop = true;
    assert!(!apply_gravity(&mut game, &down, FRAME, BlockShape::S));
    assert_eq!((game.block.position.y, game.block.gravity_timer), (1, 5000));
    let held = holding(|keys| keys.soft_drop = true);
    let mut rows = Vec::new();
    for _ in 0..10 {
        apply_gravity(&mut game, &held, FRAME, BlockShape::S);
        rows.push(game.block.position.y);
    }
    assert_eq!(rows, vec![1, 1, 1, 1, 2, 2, 2, 2, 2, 3]);
    // Released: the next step takes the full delay again.
    game.block.gravity_timer = 1000;
    apply_gravity(&mut game, &idle(), FRAME, BlockShape::S);
    assert_eq!(game.block.gravity_timer, 45000);
}

#[test]
fn a_block_that_cannot_step_down_locks_where_it_stands() {
    let mut game = Game::new(BlockShape::T, BlockShape::J);
    game.block.position = Position { x: 3, y: 14 };
    game.block.gravity_timer = 1000;
    game.has_switched = true;
    assert!(apply_gravity(&mut game, &idle(), FRAME, BlockShape::S));
    let mut expected = [EMPTY_ROW; 16];
    expected[14] = [8, 0, 0, 0, 3, 0, 0, 0, 0, 0, 0, 8];
    expected[15] = [8, 0, 0, 3, 3, 3, 0, 0, 0, 0, 0, 8];
    assert_eq!(game.placed_blocks.cells, expected);
    assert_eq!(game.block, Block::spawn(BlockShape::J));
    assert_eq!(game.next_block, Block::new(BlockShape::S));
    assert!(!game.has_switched);
    assert!(game.is_valid());
}

fn board_with_gap_in_bottom_row() -> Game {
    let mut game = Game::new(BlockShape::I, BlockShape::T);
    game.placed_blocks.cells[15] = [8, 2, 2, 2, 2, 2, 0, 2, 2, 2, 2, 8];
    game.placed_blocks.cells[14] = [8, 0, 0, 5, 5, 0, 0, 0, 0, 0, 0, 8];
    game
}

#[test]
fn a_full_row_is_taken_out_in_the_frame_of_the_lock() {
    let mut game = board_with_gap_in_bottom_row();
    let drop = pressing(|keys| keys.hard_drop = true);
    let (alive, events) = advance_game(&mut game, &drop, FRAME, BlockShape::O, BlockShape::S);
    assert!(alive);
    assert_eq!(
        events,
        Events { hard_dropped: true, piece_locked: true, line_cleared: true, ..quiet() }
    );
    let mut expected = [EMPTY_ROW; 16];
    expected[15] = [8, 0, 0, 5, 5, 0, 1, 0, 0, 0, 0, 8];
    expected[14] = [8, 0, 0, 0, 0, 0, 1, 0, 0, 0, 0, 8];
    expected[13] = [8, 0, 0, 0, 0, 0, 1, 0, 0, 0, 0, 8];
    assert_eq!(game.placed_blocks.cells, expected);
    assert_eq!(game.block, Block::spawn(BlockShape::T));
    assert!(game.is_valid());
    // Nothing is left to take out in the frames that follow.
    let settled = game.placed_blocks;
    for _ in 0..40 {
        let (_, events) = advance_game(&mut game, &idle(), FRAME, BlockShape::O, BlockShape::S);
        assert_eq!(events, quiet());
        assert_eq!(game.placed_blocks, settled);
    }
}

#[test]
fn a_bar_that_fills_the_row_above_the_floor_clears_it_as_it_locks() {
    let mut game = Game::new(BlockShape::I, BlockShape::T);
    game.placed_blocks.cells[13] = [8, 4, 0, 0, 0, 0, 0, 0, 0, 0, 0, 8];
    game.placed_blocks.cells[14] = [8, 3, 3, 3, 3, 0, 3, 3, 3, 3, 3, 8];
    game.placed_blocks.cells[15] = [8, 0, 0, 0, 0, 2, 0, 0, 0, 0, 0, 8];
    game.block.position = Position { x: 4, y: 11 };
    game.block.gravity_timer = FRAME;
    assert!(game.is_valid());
    let (alive, events) = advance_game(&mut game, &idle(), FRAME, BlockShape::O, BlockShape::S);
    assert!(alive);
    assert_eq!(events, Events { piece_locked: true, line_cleared: true, ..quiet() });
    let mut expected = [EMPTY_ROW; 16];
    expected[12] = [8, 0, 0, 0, 0, 1, 0, 0, 0, 0, 0, 8];
    expected[13] = [8, 0, 0, 0, 0, 1, 0, 0, 0, 0, 0, 8];
    expected[14] = [8, 4, 0, 0, 0, 1, 0, 0, 0, 0, 0, 8];
    expected[15] = [8, 0, 0, 0, 0, 2, 0, 0, 0, 0, 0, 8];
    assert_eq!(game.placed_blocks.cells, expected);
    assert!(!game.game_over);
}

#[test]
fn several_full_rows_are_taken_out_in_one_scan() {
    let mut game = Game::new(BlockShape::I, BlockShape::T);
    let full = [8, 2, 2, 2, 2, 2, 2, 2, 2, 2, 2, 8];
    game.placed_blocks.cells[9] = [8, 0, 0, 0, 0, 0, 0, 0, 0, 6, 0, 8];
    game.placed_blocks.cells[10] = full;
    game.placed_blocks.cells[11] = [8, 0, 5, 0, 0, 0, 0, 0, 0, 0, 0, 8];
    game.placed_blocks.cells[12] = full;
    game.placed_blocks.cells[13] = full;
    game.placed_blocks.cells[14] = [8, 0, 0, 4, 0, 0, 0, 0, 0, 0, 0, 8];
    game.placed_blocks.cells[15] = full;
    assert!(scan_lines(&mut game));
    let mut expected = [EMPTY_ROW; 16];
    expected[13] = [8, 0, 0, 0, 0, 0, 0, 0, 0, 6, 0, 8];
    expected[14] = [8, 0, 5, 0, 0, 0, 0, 0, 0, 0, 0, 8];
    expected[15] = [8, 0, 0, 4, 0, 0, 0, 0, 0, 0, 0, 8];
    assert_eq!(game.placed_blocks.cells, expected);
    assert_eq!(game.placed_blocks.full_rows(), [false; 16]);
    assert!(!scan_lines(&mut game));
    assert_eq!(game.placed_blocks.cells, expected);
}

#[test]
fn without_a_full_row_the_scan_does_nothing() {
    let mut game = board_with_gap_in_bottom_row();
    let before = game;
    assert!(!scan_lines(&mut game));
    assert_eq!(game, before);
}

#[test]
fn a_full_top_row_is_not_taken_out() {
    let mut game = Game::new(BlockShape::I, BlockShape::T);
    game.placed_blocks.cells[0] = [8, 2, 2, 2, 2, 2, 2, 2, 2, 2, 2, 8];
    let before = game;
    assert!(!scan_lines(&mut game));
    assert_eq!(game, before);
    assert!(check_game_over(&mut game));
    assert!(game.game_over);
}

#[test]
fn the_game_goes_on_while_the_top_row_is_empty() {
    let mut game = Game::new(BlockShape::I, BlockShape::T);
    game.placed_blocks.cells[1] = [8, 2, 2, 2, 2, 2, 0, 2, 2, 2, 2, 8];
    let before = game;
    assert!(!check_game_over(&mut game));
    assert_eq!(game, before);
}

#[test]
fn the_steps_of_a_frame_run_in_their_order() {
    // Turn, hold, move and fall in one frame: the held block is the turned
    // one, and the block that came in moved left and fell.
    let mut game = Game::new(BlockShape::I, BlockShape::T);
    game.block.gravity_timer = 1000;
    game.next_block.gravity_timer = 500;
    let mut input = idle();
    input.pressed.rotate_cw = true;
    input.pressed.hold_swap = true;
    input.held.move_left = true;
    let (alive, events) = advance_game(&mut game, &input, FRAME, BlockShape::O, BlockShape::S);
    assert!(alive);
    assert_eq!(events, Events { switched: true, ..quiet() });
    assert_eq!(
        game.held_block,
        Some(Block {
            position: Position { x: 13, y: 7 },
            rotation: 1,
            block_shape: BlockShape::I,
            gravity_timer: 1000,
            movement_timer: 0,
        })
    );
    assert_eq!(
        game.block,
        Block {
            position: Position { x: 4, y: 1 },
            rotation: 0,
            block_shape: BlockShape::T,
            gravity_timer: 45000,
            movement_timer: 7000,
        }
    );
    assert_eq!(game.next_block, Block::new(BlockShape::O));
}

#[test]
fn a_session_is_checked_before_it_is_played() {
    let game = Game::new(BlockShape::I, BlockShape::T);
    assert!(game.is_valid());
    let mut broken = game;
    broken.block.rotation = 4;
    assert!(!broken.is_valid());
    let mut broken = game;
    broken.next_block.rotation = 9;
    assert!(!broken.is_valid());
    let mut broken = game;
    broken.held_block = Some(Block { rotation: 4, ..Block::new(BlockShape::O) });
    assert!(!broken.is_valid());
    let mut broken = game;
    broken.block.position = Position { x: 13, y: 1 };
    assert!(!broken.is_valid());
    let mut broken = game;
    broken.placed_blocks.cells[2][11] = 0;
    assert!(!broken.is_valid());
    let mut broken = game;
    broken.next_block.rotation = 1;
    assert!(!broken.is_valid());
}

#[test]
fn random_play_keeps_the_session_valid() {
    let mut game = Game::new(BlockShape::random(), BlockShape::random());
    let mut locks = 0;
    let mut restarts = 0;
    for frame in 0u32..20000 {
        let mut input = idle();
        input.pressed.rotate_cw = frame % 11 == 0;
        input.pressed.hard_drop = frame % 17 == 0;
        input.pressed.hold_swap = frame % 29 == 0;
        input.held.move_left = frame % 64 < 20;
        input.held.move_right = frame % 64 >= 40;
        input.held.soft_drop = frame % 5 == 0;
        input.pressed.confirm = frame % 101 == 0;
        let was_over = game.game_over;
        let (alive, events) = update_game(&mut game, &input, FRAME + frame % 3);
        assert!(game.is_valid(), "frame {}", frame);
        if !game.game_over {
            assert!(!game.placed_blocks.is_game_over(), "frame {}", frame);
            assert_eq!(game.placed_blocks.full_rows(), [false; 16], "frame {}", frame);
        }
        assert_eq!(alive, !game.game_over);
        assert_eq!(events.restarted, was_over && input.pressed.confirm);
        assert_eq!(game.block, Block { block_shape: game.block.block_shape, ..game.block });
        if events.piece_locked {
            locks += 1;
            assert_eq!(game.next_block, Block::new(game.next_block.block_shape));
        }
        if events.restarted {
            restarts += 1;
            assert_eq!(game, Game::new(game.block.block_shape, game.next_block.block_shape));
        }
    }
    assert!(locks > 100);
    assert!(restarts > 0);
}
