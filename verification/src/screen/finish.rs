use vstd::prelude::*;
use crate::edit_text::{trimmed, written, EditText, SLOTS};
use crate::high_score::{qualifies, ranked, record, top, ScoreEntry, LINES};
use crate::hud::{AsCached, Clock};

verus! {

/// What every whole second left on the clock adds to the score.
pub const BONUS: u64 = 5;

/// The score that earned a line in the list, the list as it was, and the name
/// that is being written for the line.
pub struct ScoreData<T> {
    pub previous: Vec<ScoreEntry>,
    pub current: u32,
    pub name: EditText<T>,
}

/// Where a tick on the final screen leads.
#[derive(Debug)]
pub enum Leave {
    /// Nowhere: the screen stays.
    Stay,
    /// To the menu.
    Menu,
    /// To the list of high scores, which is to be saved as given.
    HighScore(Vec<ScoreEntry>),
}

impl<T> ScoreData<T> {
    /// `list` is the list of high scores with a line for this score under the
    /// name as written.
    pub open spec fn recorded(&self, list: Seq<ScoreEntry>) -> bool {
        exists|entry: ScoreEntry|
            {
                &&& entry.score == self.current
                &&& entry.name@ == trimmed(written(self.name.values@))
                &&& list == #[trigger] top(ranked(self.previous@.push(entry)))
            }
    }

    /// The list of high scores with a line for this score, where a name has
    /// been written; otherwise everything is handed back as it was.
    pub fn extract(self) -> (r: Result<Vec<ScoreEntry>, ScoreData<T>>)
        requires
            self.name.wf(),
        ensures
            match r {
                Ok(list) => trimmed(written(self.name.values@)).len() > 0 && self.recorded(list@),
                Err(back) => trimmed(written(self.name.values@)).len() == 0 && back == self,
            },
    {
        let name = self.name.extract();
        if name.as_str().is_empty() {
            Err(self)
        } else {
            let entry = ScoreEntry { name, score: self.current };
            let list = record(self.previous, entry);
            assert(list@ == top(ranked(self.previous@.push(entry))));
            Ok(list)
        }
    }
}

/// The final screen of a game that was won.
pub struct Finish<T> {
    /// The score of the game.
    pub score: u32,
    /// What the time left has added.
    pub time: u32,
    /// Both together.
    pub total: u32,
    /// The line to write, where the total has earned one.
    pub score_entry: Option<ScoreData<T>>,
}

impl<T> Finish<T> {
    /// The final screen for a game that ended with `score` and `left` on the
    /// clock. Every whole second left adds [`BONUS`]. Where the total earns a
    /// line in the list `previous`, `name` is there to be written.
    pub fn load(score: u32, left: Clock, previous: Vec<ScoreEntry>, name: EditText<T>) -> (r:
        Finish<T>)
        requires
            BONUS * (left.0 / 1_000_000_000) + score <= u32::MAX,
        ensures
            r.score == score,
            r.time == BONUS * (left.0 / 1_000_000_000),
            r.total == r.time + score,
            r.score_entry is Some <==> (previous@.len() < LINES || exists|i: int|
                0 <= i < previous@.len() && (#[trigger] previous@[i]).score <= r.total),
            r.score_entry is Some ==> {
                let entry = r.score_entry->Some_0;
                entry.previous == previous && entry.current == r.total && entry.name == name
            },
    {
        let time: u32 = (BONUS * (left.0 / 1_000_000_000)) as u32;
        let total: u32 = time + score;
        let score_entry = if qualifies(&previous, total) {
            Some(ScoreData { previous, name, current: total })
        } else {
            None
        };
        Finish { score, time, total, score_entry }
    }

    /// Brings the picture of the letter that is being edited up to date, where
    /// there is a name to write.
    pub fn before_draw<E, R: Fn(char) -> Result<T, E>>(&mut self, render: &R) -> (r: Result<(), E>)
        requires
            old(self).score_entry is Some ==> {
                let name = old(self).score_entry->Some_0.name;
                name.wf() && render.requires((name.values@[name.active as int].cached(),))
            },
        ensures
            old(self).score_entry is None ==> r is Ok && *final(self) == *old(self),
            final(self).score == old(self).score,
            final(self).time == old(self).time,
            final(self).total == old(self).total,
            final(self).score_entry is Some == old(self).score_entry is Some,
            old(self).score_entry is Some ==> {
                let (was, is) = (old(self).score_entry->Some_0, final(self).score_entry->Some_0);
                &&& is.previous == was.previous
                &&& is.current == was.current
                &&& is.name.wf()
                &&& is.name.values == was.name.values
                &&& is.name.active == was.name.active
                &&& is.name.flicker == was.name.flicker
                &&& !was.name.stale() ==> r is Ok && is.name.textures == was.name.textures
                &&& was.name.stale() ==> match r {
                    Ok(_) => {
                        let shown = was.name.values@[was.name.active as int];
                        &&& forall|i: int|
                            0 <= i < SLOTS && i != was.name.active ==> is.name.textures@[i]
                                == was.name.textures@[i]
                        &&& is.name.textures@[was.name.active as int].value.0 == shown
                        &&& render.ensures(
                            (shown.cached(),),
                            Ok(is.name.textures@[was.name.active as int].texture),
                        )
                    },
                    Err(e) => is.name.textures == was.name.textures && render.ensures(
                        (was.name.values@[was.name.active as int].cached(),),
                        Err(e),
                    ),
                }
            },
    {
        match self.score_entry.take() {
            Some(mut s) => {
                let r = s.name.before_draw(render);
                self.score_entry = Some(s);
                r
            },
            None => Ok(()),
        }
    }

    /// Takes in the keys of one tick and lets `elapsed` nanoseconds pass.
    ///
    /// The enter key leaves the screen: for the menu where there is no line
    /// to write, and for the list of high scores, with the new line in it,
    /// where a name has been written; while the name is empty it changes
    /// nothing. Without the enter key the other keys edit the name.
    pub fn update(
        &mut self,
        elapsed: u64,
        enter: bool,
        left: bool,
        right: bool,
        up: bool,
        down: bool,
    ) -> (r: Leave)
        requires
            old(self).score_entry is Some ==> old(self).score_entry->Some_0.name.wf(),
        ensures
            final(self).score == old(self).score,
            final(self).time == old(self).time,
            final(self).total == old(self).total,
            match old(self).score_entry {
                None => final(self).score_entry is None && (if enter {
                    r is Menu
                } else {
                    r is Stay
                }),
                Some(was) => {
                    let name = trimmed(written(was.name.values@));
                    if enter && name.len() > 0 {
                        final(self).score_entry is None && r is HighScore && was.recorded(
                            r->HighScore_0@,
                        )
                    } else if enter {
                        r is Stay && final(self).score_entry == Some(was)
                    } else {
                        let is = final(self).score_entry->Some_0;
                        &&& r is Stay
                        &&& final(self).score_entry is Some
                        &&& is.previous == was.previous
                        &&& is.current == was.current
                        &&& is.name.wf()
                        &&& is.name.textures == was.name.textures
                        &&& is.name.flicker == was.name.flicker.updated(elapsed)
                        &&& (is.name.values@, is.name.active) == EditText::<T>::updated(
                            was.name.values@,
                            was.name.active,
                            left,
                            right,
                            up,
                            down,
                        )
                    }
                },
            },
    {
        match self.score_entry.take() {
            None => if enter {
                Leave::Menu
            } else {
                Leave::Stay
            },
            Some(mut s) => {
                if enter {
                    match s.extract() {
                        Ok(list) => Leave::HighScore(list),
                        Err(back) => {
                            self.score_entry = Some(back);
                            Leave::Stay
                        },
                    }
                } else {
                    s.name.update(elapsed, left, right, up, down);
                    self.score_entry = Some(s);
                    Leave::Stay
                }
            },
        }
    }
}

} // verus!
