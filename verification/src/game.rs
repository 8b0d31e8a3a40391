//! The session: board, blocks in play and in the side slots, timers and
//! flags, and the snapshot types that cross the boundary to the host.

use crate::block::{Block, BlockShape};
use crate::board::{any_clearable, collision, inside_well, row_full, top_row_taken, Board};
use vstd::prelude::*;

verus! {

/// Time between two steps of a block while a direction key stays down.
pub const MOVE_REPEAT: u32 = 7000;

/// Time a direction key is ignored after a hard drop.
pub const HARD_DROP_MOVE_DELAY: u32 = 6000;

/// Gravity delay while the soft-drop key is down.
pub const SOFT_DROP_DELAY: u32 = 5000;

/// Time between the confirm key in the menu and the start of play.
pub const MENU_DELAY: u32 = 60000;

/// Column of the side slot that shows the held block.
pub const HOLD_X: i32 = 13;

/// Row of the side slot that shows the held block.
pub const HOLD_Y: i32 = 7;

/// Which screen the session is on.
#[derive(Copy, Clone, Debug, PartialEq, Eq, Structural)]
pub enum GameState {
    Menu,
    Game,
}

/// The phase of the session as the presentation layer sees it.
#[derive(Copy, Clone, Debug, PartialEq, Eq, Structural)]
pub enum Phase {
    Menu,
    Playing,
    GameOver,
}

/// One flag per action of the player.
#[derive(Copy, Clone, Debug, PartialEq, Eq, Structural)]
pub struct Keys {
    pub rotate_cw: bool,
    pub hard_drop: bool,
    pub hold_swap: bool,
    pub move_left: bool,
    pub move_right: bool,
    pub soft_drop: bool,
    pub confirm: bool,
}

/// What the player does in one frame: the actions whose key went down in
/// this frame, and the actions whose key is down.
#[derive(Copy, Clone, Debug, PartialEq, Eq, Structural)]
pub struct Input {
    pub pressed: Keys,
    pub held: Keys,
}

/// What happened in one frame that sound and screen shake react to. Each
/// flag stands for one occurrence in this frame and is not carried over to
/// the next.
#[derive(Copy, Clone, Debug, PartialEq, Eq, Structural)]
pub struct Events {
    /// The confirm key was taken in the menu.
    pub confirmed: bool,
    /// Play began from the menu.
    pub started: bool,
    /// Play began anew after a game over.
    pub restarted: bool,
    /// The block was dropped to the floor of its column.
    pub hard_dropped: bool,
    /// The block went to the hold slot.
    pub switched: bool,
    /// The block was locked into the board.
    pub piece_locked: bool,
    /// Full rows were taken out.
    pub line_cleared: bool,
    /// The stack reached the top row.
    pub game_over_entered: bool,
}

/// The whole state of a session.
#[derive(Copy, Clone, Debug, PartialEq, Eq)]
pub struct Game {
    pub state: GameState,
    pub placed_blocks: Board,
    /// The falling block.
    pub block: Block,
    pub game_over: bool,
    /// The block that falls next.
    pub next_block: Block,
    /// The block in the hold slot, if any.
    pub held_block: Option<Block>,
    /// Whether the hold slot was used since the last lock.
    pub has_switched: bool,
    /// Whether the confirm key was taken in the menu.
    pub play: bool,
    /// Time left in the menu once the confirm key was taken.
    pub menu_delay: u32,
}

/// The session as a mathematical value: the board as a grid of cells.
pub struct GameView {
    pub state: GameState,
    pub board: Seq<Seq<u8>>,
    pub block: Block,
    pub game_over: bool,
    pub next_block: Block,
    pub held_block: Option<Block>,
    pub has_switched: bool,
    pub play: bool,
    pub menu_delay: u32,
}

impl View for Game {
    type V = GameView;

    open spec fn view(&self) -> GameView {
        GameView {
            state: self.state,
            board: self.placed_blocks@,
            block: self.block,
            game_over: self.game_over,
            next_block: self.next_block,
            held_block: self.held_block,
            has_switched: self.has_switched,
            play: self.play,
            menu_delay: self.menu_delay,
        }
    }
}

impl Keys {
    /// No action.
    pub open spec fn idle() -> Keys {
        Keys {
            rotate_cw: false,
            hard_drop: false,
            hold_swap: false,
            move_left: false,
            move_right: false,
            soft_drop: false,
            confirm: false,
        }
    }

    /// No action.
    pub fn none() -> (keys: Keys)
        ensures
            keys == Keys::idle(),
    {
        Keys {
            rotate_cw: false,
            hard_drop: false,
            hold_swap: false,
            move_left: false,
            move_right: false,
            soft_drop: false,
            confirm: false,
        }
    }
}

impl Input {
    /// No key pressed, no key down.
    pub open spec fn idle() -> Input {
        Input { pressed: Keys::idle(), held: Keys::idle() }
    }

    /// No key pressed, no key down.
    pub fn none() -> (input: Input)
        ensures
            input == Input::idle(),
    {
        Input { pressed: Keys::none(), held: Keys::none() }
    }
}

impl Events {
    /// Nothing happened.
    pub open spec fn quiet() -> Events {
        Events {
            confirmed: false,
            started: false,
            restarted: false,
            hard_dropped: false,
            switched: false,
            piece_locked: false,
            line_cleared: false,
            game_over_entered: false,
        }
    }

    /// Nothing happened.
    pub fn none() -> (events: Events)
        ensures
            events == Events::quiet(),
    {
        Events {
            confirmed: false,
            started: false,
            restarted: false,
            hard_dropped: false,
            switched: false,
            piece_locked: false,
            line_cleared: false,
            game_over_entered: false,
        }
    }
}

impl GameView {
    /// The state that every step of the session keeps: the walls of the
    /// board are intact, the rotation of the falling and of the held block
    /// is in range, the falling block lies inside the well, and the upcoming
    /// block is unrotated.
    pub open spec fn wf(self) -> bool {
        &&& crate::board::walled(self.board)
        &&& self.block.wf()
        &&& inside_well(self.block)
        &&& self.next_block.rotation == 0
        &&& (self.held_block matches Some(held) ==> held.wf())
    }

    /// The state in which every frame leaves the session: unless the game
    /// is over, the top row is empty between the walls and no row below it
    /// is full.
    pub open spec fn settled(self) -> bool {
        self.game_over || (!top_row_taken(self.board) && !any_clearable(self.board))
    }

    /// A session at the start of play: an empty board, `first` at the spawn
    /// cell, `next` in the preview slot, nothing held, no flag set.
    pub open spec fn fresh(first: BlockShape, next: BlockShape) -> GameView {
        GameView {
            state: GameState::Game,
            board: crate::board::empty_grid(),
            block: Block::spawned(first),
            game_over: false,
            next_block: Block::fresh(next),
            held_block: None,
            has_switched: false,
            play: false,
            menu_delay: MENU_DELAY,
        }
    }

    /// The phase that the flags stand for.
    pub open spec fn phase(self) -> Phase {
        if self.state == GameState::Menu {
            Phase::Menu
        } else if self.game_over {
            Phase::GameOver
        } else {
            Phase::Playing
        }
    }
}

/// A block of any rotation lies inside the well when it stands at the spawn
/// cell.
pub proof fn lemma_spawn_inside(block: Block)
    requires
        block.wf(),
    ensures
        inside_well(block.at(crate::block::SPAWN_X, crate::block::SPAWN_Y)),
        block.at(crate::block::SPAWN_X, crate::block::SPAWN_Y).wf(),
{
}

/// A session at the start of play is well formed and settled.
pub proof fn lemma_fresh_wf(first: BlockShape, next: BlockShape)
    ensures
        GameView::fresh(first, next).wf(),
        GameView::fresh(first, next).settled(),
{
    lemma_spawn_inside(Block::fresh(first));
    assert(Block::spawned(first) == Block::fresh(first).at(
        crate::block::SPAWN_X,
        crate::block::SPAWN_Y,
    ));
    let grid = crate::board::empty_grid();
    assert forall|row: int| 1 <= row < 16 implies !row_full(grid, row) by {
        assert(grid[row][1] == 0);
    }
}

impl Game {
    /// See [`GameView::wf`].
    pub open spec fn wf(&self) -> bool {
        self@.wf()
    }

    /// A session at the start of play: an empty board, a block of shape
    /// `first` at the spawn cell, a block of shape `next` in the preview
    /// slot, nothing held.
    pub fn new(first: BlockShape, next: BlockShape) -> (game: Game)
        ensures
            game@ == GameView::fresh(first, next),
            game.wf(),
            game@.settled(),
    {
        let game = Game {
            state: GameState::Game,
            placed_blocks: Board::new(),
            block: Block::spawn(first),
            game_over: false,
            next_block: Block::new(next),
            held_block: None,
            has_switched: false,
            play: false,
            menu_delay: MENU_DELAY,
        };
        proof {
            lemma_fresh_wf(first, next);
        }
        game
    }

    /// Whether the falling block, where it stands, overlaps a taken cell, a
    /// wall or the outside of the board.
    pub fn block_collides(&self) -> (hit: bool)
        requires
            self.block.wf(),
        ensures
            hit == collision(self@.board, self@.block),
    {
        self.placed_blocks.collides(&self.block)
    }

    /// Whether the session is in a state from which a frame can be taken:
    /// walls intact, rotations in range, the falling block inside the well,
    /// the upcoming block unrotated.
    pub fn is_valid(&self) -> (ok: bool)
        ensures
            ok == self.wf(),
    {
        if !self.placed_blocks.is_valid() || !self.block.is_valid() || self.next_block.rotation != 0 {
            return false;
        }
        match self.held_block {
            Some(held) => {
                if !held.is_valid() {
                    return false;
                }
            },
            None => {},
        }
        self.placed_blocks.contains_block(&self.block)
    }

    /// Menu, playing or game over.
    pub fn phase(&self) -> (phase: Phase)
        ensures
            phase == self@.phase(),
    {
        if self.state == GameState::Menu {
            Phase::Menu
        } else if self.game_over {
            Phase::GameOver
        } else {
            Phase::Playing
        }
    }
}

} // verus!
