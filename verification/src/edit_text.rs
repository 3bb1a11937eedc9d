use vstd::prelude::*;
use crate::flicker::Flicker;
use crate::hud::{AsCached, CacheValue, TextCache};

verus! {

/// The number of letters of a name.
pub const SLOTS: usize = 6;

/// The half-period with which the letter that is being edited blinks, in
/// nanoseconds.
pub const BLINK: u64 = 400_000_000;

/// `String::push` puts one character at the end of the string and leaves the
/// rest as it was.
pub assume_specification[ String::push ](s: &mut String, ch: char)
    ensures
        final(s)@ == old(s)@.push(ch),
;

impl AsCached for Option<char> {
    type Value = char;

    /// An empty place is shown as a line to write on.
    open spec fn cached(&self) -> char {
        match *self {
            None => '_',
            Some(c) => c,
        }
    }

    fn as_cached(&self) -> (r: char) {
        match *self {
            None => '_',
            Some(c) => c,
        }
    }
}

/// The letter after `v` when the up key turns the wheel: from the empty place
/// through the alphabet and back to the empty place.
pub open spec fn turned_up(v: Option<char>) -> Option<char> {
    match v {
        None => Some('a'),
        Some(c) => if c == 'z' {
            None
        } else {
            Some(((c as u8) + 1) as char)
        },
    }
}

/// The letter before `v`: the wheel turned the other way.
pub open spec fn turned_down(v: Option<char>) -> Option<char> {
    match v {
        None => Some('z'),
        Some(c) => if c == 'a' {
            None
        } else {
            Some(((c as u8) - 1) as char)
        },
    }
}

/// An empty place or a small letter.
pub open spec fn is_letter(v: Option<char>) -> bool {
    match v {
        None => true,
        Some(c) => 'a' <= c <= 'z',
    }
}

/// The characters that the places stand for: a blank for an empty place.
pub open spec fn written(values: Seq<Option<char>>) -> Seq<char> {
    Seq::new(
        values.len(),
        |i: int|
            match values[i] {
                None => ' ',
                Some(c) => c,
            },
    )
}

/// The text without the blanks at its beginning.
pub open spec fn strip_front(s: Seq<char>) -> Seq<char>
    decreases s.len(),
{
    if s.len() == 0 || s[0] != ' ' {
        s
    } else {
        strip_front(s.drop_first())
    }
}

/// The text without the blanks at its end.
pub open spec fn strip_back(s: Seq<char>) -> Seq<char>
    decreases s.len(),
{
    if s.len() == 0 || s.last() != ' ' {
        s
    } else {
        strip_back(s.drop_last())
    }
}

/// The text without the blanks at its beginning and at its end.
pub open spec fn trimmed(s: Seq<char>) -> Seq<char> {
    strip_back(strip_front(s))
}

/// A text that begins with `a` blanks and then with something else, or is
/// all blanks, is stripped of just these.
pub proof fn lemma_strip_front(s: Seq<char>, a: int)
    requires
        0 <= a <= s.len(),
        forall|i: int| 0 <= i < a ==> s[i] == ' ',
        a < s.len() ==> s[a] != ' ',
    ensures
        strip_front(s) == s.subrange(a, s.len() as int),
    decreases a,
{
    if a == 0 {
        assert(s.subrange(0, s.len() as int) == s);
    } else {
        let rest = s.drop_first();
        assert forall|i: int| 0 <= i < a - 1 implies rest[i] == ' ' by {
            assert(rest[i] == s[i + 1]);
        }
        lemma_strip_front(rest, a - 1);
        assert(rest.subrange(a - 1, rest.len() as int) == s.subrange(a, s.len() as int));
    }
}

/// A text that ends with blanks from `b` on, and with something else before
/// them, is stripped of just these.
pub proof fn lemma_strip_back(s: Seq<char>, b: int)
    requires
        0 <= b <= s.len(),
        forall|i: int| b <= i < s.len() ==> s[i] == ' ',
        b > 0 ==> s[b - 1] != ' ',
    ensures
        strip_back(s) == s.subrange(0, b),
    decreases s.len() - b,
{
    if b == s.len() {
        assert(s.subrange(0, s.len() as int) == s);
    } else {
        let rest = s.drop_last();
        lemma_strip_back(rest, b);
        assert(rest.subrange(0, b) == s.subrange(0, b));
    }
}

/// A name that is being written: six places, each empty or a small letter,
/// one of them being edited, and a picture of each.
pub struct EditText<T> {
    pub textures: Vec<TextCache<T, Option<char>>>,
    pub values: Vec<Option<char>>,
    /// The place that is being edited.
    pub active: usize,
    /// The blinking of that place.
    pub flicker: Flicker,
}

impl<T> EditText<T> {
    /// There are [`SLOTS`] places and as many pictures, every place is empty
    /// or a small letter, and the place being edited is one of them.
    pub open spec fn wf(&self) -> bool {
        &&& self.textures@.len() == SLOTS
        &&& self.values@.len() == SLOTS
        &&& self.active < SLOTS
        &&& forall|i: int| 0 <= i < SLOTS ==> is_letter(#[trigger] self.values@[i])
    }

    /// The place being edited shows something else than its picture.
    pub open spec fn stale(&self) -> bool {
        self.textures@[self.active as int].value.0.cached() != self.values@[self.active
            as int].cached()
    }

    /// Six empty places, the first being edited, each with the picture that
    /// `render` makes of an empty place; or the first failure of `render`.
    pub fn load<E, R: Fn(char) -> Result<T, E>>(render: &R) -> (r: Result<Self, E>)
        requires
            render.requires(('_',)),
        ensures
            match r {
                Ok(text) => {
                    &&& text.wf()
                    &&& text.active == 0
                    &&& text.flicker == Flicker::new_spec(BLINK)
                    &&& forall|i: int| 0 <= i < SLOTS ==> (#[trigger] text.values@[i]) is None
                    &&& forall|i: int|
                        0 <= i < SLOTS ==> (#[trigger] text.textures@[i]).value.0 is None
                            && render.ensures(('_',), Ok(text.textures@[i].texture))
                },
                Err(e) => render.ensures(('_',), Err(e)),
            },
    {
        let mut textures: Vec<TextCache<T, Option<char>>> = Vec::new();
        let mut values: Vec<Option<char>> = Vec::new();
        while textures.len() < SLOTS
            invariant
                render.requires(('_',)),
                textures@.len() == values@.len() <= SLOTS,
                forall|i: int| 0 <= i < values@.len() ==> (#[trigger] values@[i]) is None,
                forall|i: int|
                    0 <= i < textures@.len() ==> (#[trigger] textures@[i]).value.0 is None
                        && render.ensures(('_',), Ok(textures@[i].texture)),
            decreases SLOTS - textures@.len(),
        {
            match render('_') {
                Ok(texture) => {
                    textures.push(TextCache { value: CacheValue(None), texture });
                    values.push(None);
                },
                Err(e) => {
                    return Err(e);
                },
            }
        }
        Ok(EditText { textures, values, active: 0, flicker: Flicker::new(BLINK) })
    }

    /// The state after the keys of one tick and `elapsed` nanoseconds: the
    /// left and right keys move the place being edited, within the name; the
    /// up and down keys then turn the wheel of that place; and the blinking
    /// goes on.
    pub open spec fn updated(
        values: Seq<Option<char>>,
        active: usize,
        left: bool,
        right: bool,
        up: bool,
        down: bool,
    ) -> (Seq<Option<char>>, usize) {
        let moved_left = if left && active > 0 {
            (active - 1) as usize
        } else {
            active
        };
        let place = if right && moved_left + 1 < SLOTS {
            (moved_left + 1) as usize
        } else {
            moved_left
        };
        let after_up = if up {
            turned_up(values[place as int])
        } else {
            values[place as int]
        };
        let after_down = if down {
            turned_down(after_up)
        } else {
            after_up
        };
        (values.update(place as int, after_down), place)
    }

    /// Takes in the keys of one tick and lets `elapsed` nanoseconds pass.
    pub fn update(&mut self, elapsed: u64, left: bool, right: bool, up: bool, down: bool)
        requires
            old(self).wf(),
        ensures
            final(self).wf(),
            (final(self).values@, final(self).active) == Self::updated(
                old(self).values@,
                old(self).active,
                left,
                right,
                up,
                down,
            ),
            final(self).flicker == old(self).flicker.updated(elapsed),
            final(self).textures == old(self).textures,
    {
        if left {
            self.move_left();
        }
        if right {
            self.move_right();
        }
        if up {
            assert(is_letter(self.values@[self.active as int]));
            let next = match self.values[self.active] {
                None => Some('a'),
                Some(c) => if c == 'z' {
                    None
                } else {
                    Some(((c as u8) + 1) as char)
                },
            };
            self.values[self.active] = next;
        }
        if down {
            assert(is_letter(self.values@[self.active as int]));
            let next = match self.values[self.active] {
                None => Some('z'),
                Some(c) => if c == 'a' {
                    None
                } else {
                    Some(((c as u8) - 1) as char)
                },
            };
            self.values[self.active] = next;
        }
        self.flicker.update(elapsed);
    }

    /// Brings the picture of the place being edited up to date: where the
    /// place shows what its picture was made of, nothing is rendered;
    /// otherwise `render` makes a picture of what it shows now, and where
    /// that fails, the failure is returned and the old picture stays.
    pub fn before_draw<E, R: Fn(char) -> Result<T, E>>(&mut self, render: &R) -> (r: Result<(), E>)
        requires
            old(self).wf(),
            render.requires((old(self).values@[old(self).active as int].cached(),)),
        ensures
            final(self).wf(),
            final(self).values == old(self).values,
            final(self).active == old(self).active,
            final(self).flicker == old(self).flicker,
            !old(self).stale() ==> r is Ok && final(self).textures == old(self).textures,
            old(self).stale() ==> match r {
                Ok(_) => {
                    let shown = old(self).values@[old(self).active as int];
                    &&& final(self).textures@.len() == SLOTS
                    &&& forall|i: int|
                        0 <= i < SLOTS && i != old(self).active ==> final(self).textures@[i]
                            == old(self).textures@[i]
                    &&& final(self).textures@[old(self).active as int].value.0 == shown
                    &&& render.ensures(
                        (shown.cached(),),
                        Ok(final(self).textures@[old(self).active as int].texture),
                    )
                },
                Err(e) => final(self).textures == old(self).textures && render.ensures(
                    (old(self).values@[old(self).active as int].cached(),),
                    Err(e),
                ),
            },
    {
        let shown = self.values[self.active];
        if self.textures[self.active].value.0.as_cached() != shown.as_cached() {
            match render(shown.as_cached()) {
                Ok(texture) => {
                    self.textures[self.active] = TextCache { value: CacheValue(shown), texture };
                },
                Err(e) => {
                    return Err(e);
                },
            }
        }
        Ok(())
    }

    /// The name as written: a blank for every empty place, without the blanks
    /// at its beginning and at its end.
    pub fn extract(&self) -> (r: String)
        requires
            self.wf(),
        ensures
            r@ == trimmed(written(self.values@)),
    {
        let ghost text = written(self.values@);
        let mut from: usize = 0;
        while from < SLOTS && self.values[from].is_none()
            invariant
                self.wf(),
                from <= SLOTS,
                text == written(self.values@),
                forall|i: int| 0 <= i < from ==> text[i] == ' ',
            decreases SLOTS - from,
        {
            from += 1;
        }
        let mut to: usize = SLOTS;
        while to > from && self.values[to - 1].is_none()
            invariant
                self.wf(),
                from <= to <= SLOTS,
                text == written(self.values@),
                forall|i: int| to <= i < SLOTS ==> text[i] == ' ',
            decreases to,
        {
            to -= 1;
        }
        proof {
            assert forall|i: int| 0 <= i < SLOTS implies (text[i] == ' ' <==> self.values@[i]
                is None) by {
                assert(is_letter(self.values@[i]));
            }
            lemma_strip_front(text, from as int);
            let rest = text.subrange(from as int, SLOTS as int);
            lemma_strip_back(rest, to - from);
        }
        let mut out = String::new();
        let mut i: usize = from;
        while i < to
            invariant
                self.wf(),
                from <= i <= to <= SLOTS,
                text == written(self.values@),
                out@ == text.subrange(from as int, i as int),
            decreases to - i,
        {
            let c = match self.values[i] {
                None => ' ',
                Some(c) => c,
            };
            out.push(c);
            assert(text.subrange(from as int, i + 1) == text.subrange(from as int, i as int).push(
                text[i as int],
            ));
            i += 1;
        }
        assert(text.subrange(from as int, SLOTS as int).subrange(0, to - from) == text.subrange(
            from as int,
            to as int,
        ));
        out
    }

    /// The place being edited moves one to the left, unless it is the first.
    fn move_left(&mut self)
        ensures
            final(self).active == if old(self).active > 0 {
                (old(self).active - 1) as usize
            } else {
                old(self).active
            },
            final(self).values == old(self).values,
            final(self).textures == old(self).textures,
            final(self).flicker == old(self).flicker,
    {
        if self.active > 0 {
            self.active -= 1;
        }
    }

    /// The place being edited moves one to the right, unless it is the last.
    fn move_right(&mut self)
        requires
            old(self).active < SLOTS,
        ensures
            final(self).active == if old(self).active + 1 < SLOTS {
                (old(self).active + 1) as usize
            } else {
                old(self).active
            },
            final(self).values == old(self).values,
            final(self).textures == old(self).textures,
            final(self).flicker == old(self).flicker,
    {
        if self.active + 1 < SLOTS {
            self.active += 1;
        }
    }
}

} // verus!
