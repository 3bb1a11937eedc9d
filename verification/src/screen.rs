use vstd::prelude::*;

pub mod finish;
pub mod game_play;
pub mod high_score;
pub mod menu;
pub mod player_select;

pub use self::game_play::PlayerKind;

verus! {

/// The screens of the game.
#[derive(Clone, Copy, Debug, PartialEq, Eq, Structural)]
pub enum Kind {
    Menu,
    GamePlay(PlayerKind),
    HighScore,
    PlayerSelect,
}

} // verus!
