use vstd::prelude::*;
use super::{Kind, PlayerKind};

verus! {

/// Which of the two characters is selected, if any.
#[derive(Clone, Copy, Debug, PartialEq, Eq, Structural)]
pub struct ButtonManager {
    pub selected: Option<PlayerKind>,
}

impl ButtonManager {
    /// The selection after the direction keys of one tick: the husky stands
    /// on the left and the duck on the right, and a key alone selects the one
    /// on its side.
    pub open spec fn moved(selected: Option<PlayerKind>, left: bool, right: bool) -> Option<
        PlayerKind,
    > {
        if left && !right {
            Some(PlayerKind::Husky)
        } else if right && !left {
            Some(PlayerKind::Duck)
        } else {
            selected
        }
    }

    /// The buttons with nothing selected.
    pub fn new() -> (r: ButtonManager)
        ensures
            r.selected.is_none(),
    {
        ButtonManager { selected: None }
    }

    /// Takes in the keys of one tick; the enter key chooses the selected
    /// character, if one is selected.
    pub fn update(&mut self, left: bool, right: bool, enter: bool) -> (r: Option<PlayerKind>)
        ensures
            final(self).selected == Self::moved(old(self).selected, left, right),
            r == if enter {
                final(self).selected
            } else {
                None
            },
    {
        if left && !right {
            match self.selected {
                None | Some(PlayerKind::Duck) => {
                    self.selected = Some(PlayerKind::Husky);
                },
                _ => {},
            }
        } else if right && !left {
            match self.selected {
                None | Some(PlayerKind::Husky) => {
                    self.selected = Some(PlayerKind::Duck);
                },
                _ => {},
            }
        }
        if enter {
            self.selected
        } else {
            None
        }
    }
}

/// The screen on which the player picks a character.
#[derive(Clone, Copy, Debug, PartialEq, Eq, Structural)]
pub struct PlayerSelect {
    pub button_manager: ButtonManager,
}

impl PlayerSelect {
    /// The screen with nothing selected.
    pub fn new() -> (r: PlayerSelect)
        ensures
            r.button_manager.selected.is_none(),
    {
        PlayerSelect { button_manager: ButtonManager::new() }
    }

    /// Takes in the keys of one tick, and names the game to begin where a
    /// character was chosen.
    pub fn update(&mut self, left: bool, right: bool, enter: bool) -> (r: Option<Kind>)
        ensures
            final(self).button_manager.selected == ButtonManager::moved(
                old(self).button_manager.selected,
                left,
                right,
            ),
            r == match final(self).button_manager.selected {
                Some(kind) if enter => Some(Kind::GamePlay(kind)),
                _ => None,
            },
    {
        match self.button_manager.update(left, right, enter) {
            Some(kind) => Some(Kind::GamePlay(kind)),
            None => None,
        }
    }
}

} // verus!
