use vstd::prelude::*;
use super::Kind;
use crate::high_score::ScoreEntry;

verus! {

/// Where the first line of the list begins, below the top of the screen.
pub const FIRST_LINE: i32 = 150;

/// The screen that shows the list of high scores.
#[derive(Clone, Debug)]
pub struct HighScore {
    pub scores: Vec<ScoreEntry>,
}

impl HighScore {
    /// The enter key leads back to the menu.
    pub fn update(&mut self, enter: bool) -> (r: Option<Kind>)
        ensures
            r == if enter {
                Some(Kind::Menu)
            } else {
                None
            },
            final(self).scores == old(self).scores,
    {
        if enter {
            Some(Kind::Menu)
        } else {
            None
        }
    }

    /// Where line `i` begins, below the top of the screen, when every line is
    /// `height` screen units high.
    pub fn line_top(i: u32, height: u32) -> (r: i32)
        requires
            FIRST_LINE + height * i <= i32::MAX,
        ensures
            r == FIRST_LINE + height * i,
    {
        assert(0 <= height * i) by (nonlinear_arith)
            requires
                0 <= height,
                0 <= i,
        ;
        FIRST_LINE + ((height as u64) * (i as u64)) as i32
    }
}

} // verus!
