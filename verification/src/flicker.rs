use vstd::prelude::*;

verus! {

/// Whether a flickering sprite is drawn at the moment.
#[derive(Clone, Copy, Debug, PartialEq, Eq, Structural)]
pub enum State {
    Hide,
    Show,
}

impl State {
    /// The other state.
    pub open spec fn toggled(self) -> State {
        match self {
            State::Hide => State::Show,
            State::Show => State::Hide,
        }
    }

    /// Turns the state into the other one.
    pub fn toggle(&mut self)
        ensures
            *final(self) == old(self).toggled(),
    {
        *self = match *self {
            State::Hide => State::Show,
            State::Show => State::Hide,
        }
    }
}

/// A switch that turns over each time its period has run out. Times are in
/// nanoseconds.
#[derive(Clone, Copy, Debug, PartialEq, Eq, Structural)]
pub struct Flicker {
    pub duration: u64,
    pub remaining: u64,
    pub state: State,
}

impl Flicker {
    /// The switch after `delta` more nanoseconds. Where `delta` is more than
    /// what remains of the period, the switch turns over and a whole period
    /// remains, whatever the excess; otherwise that much less remains.
    pub open spec fn updated(self, delta: u64) -> Flicker {
        if self.remaining < delta {
            Flicker { duration: self.duration, remaining: self.duration, state: self.state.toggled() }
        } else {
            Flicker {
                duration: self.duration,
                remaining: (self.remaining - delta) as u64,
                state: self.state,
            }
        }
    }

    /// A switch with the given period, shown, with the whole period before it.
    pub open spec fn new_spec(duration: u64) -> Flicker {
        Flicker { duration, remaining: duration, state: State::Show }
    }

    /// A switch with the given period, shown, with the whole period before it.
    pub fn new(duration: u64) -> (r: Flicker)
        ensures
            r == Self::new_spec(duration),
    {
        Flicker { duration, state: State::Show, remaining: duration }
    }

    /// Lets `delta` nanoseconds pass.
    pub fn update(&mut self, delta: u64)
        ensures
            *final(self) == old(self).updated(delta),
    {
        match self.remaining.checked_sub(delta) {
            None => {
                self.state.toggle();
                self.remaining = self.duration;
            },
            Some(d) => self.remaining = d,
        }
    }

    /// Whether the sprite is drawn at the moment.
    pub fn is_shown(&self) -> (r: bool)
        ensures
            r == (self.state == State::Show),
    {
        match self.state {
            State::Hide => false,
            State::Show => true,
        }
    }
}

} // verus!
