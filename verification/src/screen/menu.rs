use vstd::prelude::*;
use super::Kind;

verus! {

/// The buttons of the menu.
#[derive(Clone, Copy, Debug, PartialEq, Eq, Structural)]
pub enum ButtonKind {
    NewGame,
    HighScore,
}

impl ButtonKind {
    /// The other button.
    pub open spec fn other(self) -> ButtonKind {
        match self {
            ButtonKind::NewGame => ButtonKind::HighScore,
            ButtonKind::HighScore => ButtonKind::NewGame,
        }
    }

    /// The screen that the button leads to.
    pub open spec fn leads_to(self) -> Kind {
        match self {
            ButtonKind::HighScore => Kind::HighScore,
            ButtonKind::NewGame => Kind::PlayerSelect,
        }
    }
}

/// Which button of the menu is selected.
#[derive(Clone, Copy, Debug, PartialEq, Eq, Structural)]
pub struct ButtonManager {
    pub selected: ButtonKind,
}

impl ButtonManager {
    /// The buttons with the new game selected.
    pub fn new() -> (r: ButtonManager)
        ensures
            r.selected == ButtonKind::NewGame,
    {
        ButtonManager { selected: ButtonKind::NewGame }
    }

    /// Takes in the keys of one tick. Exactly one of the down and up keys
    /// selects the other button; the enter key then chooses the selected one.
    pub fn update(&mut self, down: bool, up: bool, enter: bool) -> (r: Option<ButtonKind>)
        ensures
            final(self).selected == if down != up {
                old(self).selected.other()
            } else {
                old(self).selected
            },
            r == if enter {
                Some(final(self).selected)
            } else {
                None
            },
    {
        if down != up {
            self.selected = match self.selected {
                ButtonKind::NewGame => ButtonKind::HighScore,
                ButtonKind::HighScore => ButtonKind::NewGame,
            }
        }
        if enter {
            Some(self.selected)
        } else {
            None
        }
    }
}

/// The menu.
#[derive(Clone, Copy, Debug, PartialEq, Eq, Structural)]
pub struct Menu {
    pub button_manager: ButtonManager,
}

impl Menu {
    /// The menu with the new game selected.
    pub fn new() -> (r: Menu)
        ensures
            r.button_manager.selected == ButtonKind::NewGame,
    {
        Menu { button_manager: ButtonManager::new() }
    }

    /// Takes in the keys of one tick, and names the screen to go to where a
    /// button was chosen.
    pub fn update(&mut self, down: bool, up: bool, enter: bool) -> (r: Option<Kind>)
        ensures
            final(self).button_manager.selected == if down != up {
                old(self).button_manager.selected.other()
            } else {
                old(self).button_manager.selected
            },
            r == if enter {
                Some(final(self).button_manager.selected.leads_to())
            } else {
                None
            },
    {
        match self.button_manager.update(down, up, enter) {
            Some(ButtonKind::HighScore) => Some(Kind::HighScore),
            Some(ButtonKind::NewGame) => Some(Kind::PlayerSelect),
            None => None,
        }
    }
}

} // verus!
