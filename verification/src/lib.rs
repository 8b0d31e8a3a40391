//! Game-state core of a falling-block puzzle: the shape table, the falling
//! block, the well with its collision, lock and line-clear rules, and the
//! per-frame state machine that ties them together.
//!
//! Everything here is plain data in, plain data out. Drawing, sound, key
//! polling and the frame clock live with the host program, which hands the
//! state machine an input snapshot and the elapsed time once per frame and
//! reacts to the events that come back.

pub mod block;
pub mod board;
pub mod board_lemmas;
pub mod game;
pub mod frame;
pub mod game_lemmas;
pub mod game_state;
pub mod menu_state;
pub mod random;
pub mod util;
