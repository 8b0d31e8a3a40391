//! One frame of the session, whichever screen it is on.

use crate::block::BlockShape;
use crate::game::{Events, Game, GameState, GameView, Input};
use crate::game_state::{advance_events, advance_game, advanced};
use crate::menu_state::{advance_menu, menu_advanced, menu_events};
use vstd::prelude::*;

verus! {

/// The session after one frame: a frame of the menu on the menu screen, a
/// frame of the game otherwise.
pub open spec fn stepped(
    v: GameView,
    input: Input,
    elapsed: u32,
    fresh_a: BlockShape,
    fresh_b: BlockShape,
) -> GameView {
    match v.state {
        GameState::Menu => menu_advanced(v, input, elapsed, fresh_a, fresh_b),
        GameState::Game => advanced(v, input, elapsed, fresh_a, fresh_b),
    }
}

/// What one frame reports.
pub open spec fn step_events(
    v: GameView,
    input: Input,
    elapsed: u32,
    fresh_a: BlockShape,
    fresh_b: BlockShape,
) -> Events {
    match v.state {
        GameState::Menu => menu_events(v, input, elapsed),
        GameState::Game => advance_events(v, input, elapsed, fresh_a, fresh_b),
    }
}

impl Game {
    /// Advances the session by one frame, given what the player does, the
    /// time since the last frame in thousandths of a nominal frame, and the
    /// shapes of the blocks to come; see [`stepped`] and [`step_events`].
    pub fn advance(
        &mut self,
        input: &Input,
        elapsed: u32,
        fresh_a: BlockShape,
        fresh_b: BlockShape,
    ) -> (events: Events)
        requires
            old(self).wf(),
        ensures
            final(self)@ == stepped(old(self)@, *input, elapsed, fresh_a, fresh_b),
            events == step_events(old(self)@, *input, elapsed, fresh_a, fresh_b),
            final(self).wf(),
            old(self)@.settled() ==> final(self)@.settled(),
    {
        match self.state {
            GameState::Menu => advance_menu(self, input, elapsed, fresh_a, fresh_b),
            GameState::Game => {
                let out = advance_game(self, input, elapsed, fresh_a, fresh_b);
                out.1
            },
        }
    }

    /// Advances the session by one frame, drawing the shapes of the blocks
    /// to come at random. Whatever is drawn, the frame is the one that
    /// [`Game::advance`] makes of the two shapes.
    pub fn update(&mut self, input: &Input, elapsed: u32) -> (events: Events)
        requires
            old(self).wf(),
        ensures
            exists|fresh_a: BlockShape, fresh_b: BlockShape|
                final(self)@ == #[trigger] stepped(old(self)@, *input, elapsed, fresh_a, fresh_b)
                    && events == step_events(old(self)@, *input, elapsed, fresh_a, fresh_b),
            final(self).wf(),
            old(self)@.settled() ==> final(self)@.settled(),
    {
        let fresh_a = BlockShape::random();
        let fresh_b = BlockShape::random();
        self.advance(input, elapsed, fresh_a, fresh_b)
    }
}

} // verus!
