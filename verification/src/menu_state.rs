//! The menu: wait for the confirm key, let a short delay pass, start play.

use crate::block::BlockShape;
use crate::game::{Events, Game, GameView, Input};
use vstd::prelude::*;

verus! {

/// The time left in the menu after this frame: the delay runs only once the
/// confirm key was taken in an earlier frame, and stops at zero.
pub open spec fn menu_time_left(v: GameView, elapsed: u32) -> u32 {
    if !v.play {
        v.menu_delay
    } else if elapsed >= v.menu_delay {
        0
    } else {
        (v.menu_delay - elapsed) as u32
    }
}

/// Play starts in this frame: no time is left in the menu.
pub open spec fn menu_ends(v: GameView, elapsed: u32) -> bool {
    menu_time_left(v, elapsed) == 0
}

/// The session after one frame in the menu. When play starts, the session is
/// set up anew with blocks of the shapes `first` and `next`; until then the
/// frame only counts down and takes note of the confirm key.
pub open spec fn menu_advanced(
    v: GameView,
    input: Input,
    elapsed: u32,
    first: BlockShape,
    next: BlockShape,
) -> GameView {
    if menu_ends(v, elapsed) {
        GameView::fresh(first, next)
    } else {
        GameView {
            play: v.play || input.pressed.confirm,
            menu_delay: menu_time_left(v, elapsed),
            ..v
        }
    }
}

/// What one frame in the menu reports: the confirm key, the first time it is
/// pressed, and the start of play.
pub open spec fn menu_events(v: GameView, input: Input, elapsed: u32) -> Events {
    Events {
        confirmed: input.pressed.confirm && !v.play,
        started: menu_ends(v, elapsed),
        ..Events::quiet()
    }
}

/// Until the confirm key is pressed, the menu stays as it is and reports
/// nothing.
pub proof fn lemma_menu_waits(
    v: GameView,
    input: Input,
    elapsed: u32,
    first: BlockShape,
    next: BlockShape,
)
    requires
        !v.play,
        v.menu_delay > 0,
        !input.pressed.confirm,
    ensures
        menu_advanced(v, input, elapsed, first, next) == v,
        menu_events(v, input, elapsed) == Events::quiet(),
{
}

/// Once the confirm key was taken, play starts in the frame in which the
/// delay has passed, and not before: the session is then set up anew and is
/// in play.
pub proof fn lemma_menu_starts_after_delay(
    v: GameView,
    input: Input,
    elapsed: u32,
    first: BlockShape,
    next: BlockShape,
)
    requires
        v.play,
    ensures
        elapsed >= v.menu_delay ==> menu_advanced(v, input, elapsed, first, next)
            == GameView::fresh(first, next),
        elapsed >= v.menu_delay ==> menu_events(v, input, elapsed).started,
        elapsed < v.menu_delay ==> menu_advanced(v, input, elapsed, first, next).menu_delay
            == v.menu_delay - elapsed,
        elapsed < v.menu_delay ==> menu_advanced(v, input, elapsed, first, next).state == v.state,
        elapsed < v.menu_delay ==> !menu_events(v, input, elapsed).started,
        !menu_events(v, input, elapsed).confirmed,
{
}

/// Advances the menu by one frame, given what the player does, the time
/// since the last frame, and the shapes of the first two blocks; see
/// [`menu_advanced`] and [`menu_events`].
pub fn advance_menu(
    game: &mut Game,
    input: &Input,
    elapsed: u32,
    first: BlockShape,
    next: BlockShape,
) -> (events: Events)
    ensures
        final(game)@ == menu_advanced(old(game)@, *input, elapsed, first, next),
        events == menu_events(old(game)@, *input, elapsed),
        old(game).wf() ==> final(game).wf(),
        old(game)@.settled() ==> final(game)@.settled(),
{
    let mut events = Events::none();
    if game.play {
        if elapsed >= game.menu_delay {
            game.menu_delay = 0;
        } else {
            game.menu_delay = game.menu_delay - elapsed;
        }
    }
    if input.pressed.confirm && !game.play {
        game.play = true;
        events.confirmed = true;
    }
    if game.menu_delay == 0 {
        *game = Game::new(first, next);
        events.started = true;
    }
    events
}

/// Advances the menu by one frame, drawing the shapes of the first two
/// blocks at random. Whatever is drawn, the frame is the one that
/// [`advance_menu`] makes of the two shapes.
pub fn update_menu(game: &mut Game, input: &Input, elapsed: u32) -> (events: Events)
    ensures
        exists|first: BlockShape, next: BlockShape|
            final(game)@ == #[trigger] menu_advanced(old(game)@, *input, elapsed, first, next),
        events == menu_events(old(game)@, *input, elapsed),
        old(game).wf() ==> final(game).wf(),
        old(game)@.settled() ==> final(game)@.settled(),
{
    let first = BlockShape::random();
    let next = BlockShape::random();
    advance_menu(game, input, elapsed, first, next)
}

} // verus!
