use vstd::prelude::*;

verus! {

/// The fonts of the game.
#[derive(Clone, Copy, Debug, PartialEq, Eq, Structural)]
pub enum Kind {
    KenPixel,
    Joystix,
}

impl Kind {
    /// Where the file of the font lies.
    pub open spec fn location(self) -> Seq<char> {
        match self {
            Kind::KenPixel => "media/fonts/kenpixel_mini.ttf"@,
            Kind::Joystix => "media/fonts/joystix.monospace.ttf"@,
        }
    }

    /// Where the file of the font lies.
    pub fn path(&self) -> (r: &'static str)
        ensures
            r@ == self.location(),
    {
        match *self {
            Kind::KenPixel => "media/fonts/kenpixel_mini.ttf",
            Kind::Joystix => "media/fonts/joystix.monospace.ttf",
        }
    }
}

} // verus!
