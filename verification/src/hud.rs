use vstd::prelude::*;
use vstd::std_specs::cmp::PartialEqSpec;

verus! {

/// What of a value is shown on the screen. Two values that show the same need
/// no new picture.
pub trait AsCached {
    type Value: PartialEq;

    /// What is shown of the value.
    spec fn cached(&self) -> Self::Value;

    /// What is shown of the value.
    fn as_cached(&self) -> (r: Self::Value)
        ensures
            r == self.cached(),
    ;
}

/// A time left, in nanoseconds. It is shown in whole seconds.
#[derive(Clone, Copy, Debug, PartialEq, Eq, Structural)]
pub struct Clock(pub u64);

impl AsCached for Clock {
    type Value = u64;

    open spec fn cached(&self) -> u64 {
        self.0 / 1_000_000_000
    }

    fn as_cached(&self) -> (r: u64) {
        self.0 / 1_000_000_000
    }
}

impl AsCached for u32 {
    type Value = u32;

    open spec fn cached(&self) -> u32 {
        *self
    }

    fn as_cached(&self) -> (r: u32) {
        *self
    }
}

/// A value that is compared by what is shown of it.
pub struct CacheValue<T>(pub T);

impl<T: AsCached> CacheValue<T> {
    /// Whether the two values show the same.
    pub open spec fn shows_same(&self, other: &Self) -> bool {
        self.0.cached().eq_spec(&other.0.cached())
    }

    /// Whether the two values show the same.
    pub fn same(&self, other: &Self) -> (r: bool)
        requires
            T::Value::obeys_eq_spec(),
        ensures
            r == self.shows_same(other),
    {
        self.0.as_cached() == other.0.as_cached()
    }
}

/// A picture of a value, with the value it was made for.
pub struct TextCache<T, V> {
    pub value: CacheValue<V>,
    pub texture: T,
}

impl<T, V: AsCached> TextCache<T, V> {
    /// The picture that `render` makes of what is shown of `value`, or the
    /// failure of `render`.
    pub fn load<E, R: FnOnce(V::Value) -> Result<T, E>>(value: CacheValue<V>, render: R) -> (r:
        Result<Self, E>)
        requires
            render.requires((value.0.cached(),)),
        ensures
            match r {
                Ok(cache) => cache.value.0 == value.0 && render.ensures(
                    (value.0.cached(),),
                    Ok(cache.texture),
                ),
                Err(e) => render.ensures((value.0.cached(),), Err(e)),
            },
    {
        match render(value.0.as_cached()) {
            Ok(texture) => Ok(TextCache { value, texture }),
            Err(e) => Err(e),
        }
    }
}

/// A value on the screen: the value as it is now, and the last picture made
/// of it.
pub struct TextBox<T, V: AsCached> {
    pub text: TextCache<T, V>,
    pub value: V,
}

impl<T> TextBox<T, Clock> {
    /// Lets `elapsed` nanoseconds pass: the time left runs down, to nothing
    /// and no further.
    pub fn update(&mut self, elapsed: u64)
        ensures
            final(self).value.0 == if old(self).value.0 >= elapsed {
                old(self).value.0 - elapsed
            } else {
                0
            },
            final(self).text == old(self).text,
    {
        self.value = match self.value.0.checked_sub(elapsed) {
            Some(d) => Clock(d),
            None => Clock(0),
        }
    }
}

impl<T> TextBox<T, u32> {
    /// Adds `delta` to the count; a count that would fall below nothing is
    /// nothing.
    pub fn update(&mut self, delta: i32)
        requires
            old(self).value + delta <= u32::MAX,
        ensures
            final(self).value == if old(self).value + delta >= 0 {
                old(self).value + delta
            } else {
                0
            },
            final(self).text == old(self).text,
    {
        if delta >= 0 {
            self.value += delta as u32;
        } else {
            let down: u32 = (-(delta as i64)) as u32;
            match self.value.checked_sub(down) {
                None => self.value = 0,
                Some(v) => self.value = v,
            }
        }
    }
}

impl<T, V: AsCached + Copy> TextBox<T, V> {
    /// The picture is of something else than the value shows now.
    pub open spec fn stale(&self) -> bool {
        !self.text.value.shows_same(&CacheValue(self.value))
    }

    /// A box for `value` with the picture that `render` makes of it, or the
    /// failure of `render`.
    pub fn load<E, R: FnOnce(V::Value) -> Result<T, E>>(value: V, render: R) -> (r: Result<
        Self,
        E,
    >)
        requires
            render.requires((value.cached(),)),
        ensures
            match r {
                Ok(b) => b.value == value && b.text.value.0 == value && render.ensures(
                    (value.cached(),),
                    Ok(b.text.texture),
                ),
                Err(e) => render.ensures((value.cached(),), Err(e)),
            },
    {
        match TextCache::load(CacheValue(value), render) {
            Ok(text) => Ok(TextBox { text, value }),
            Err(e) => Err(e),
        }
    }

    /// Brings the picture up to date. Where what the value shows has not
    /// changed since the picture was made, nothing is rendered and nothing
    /// changes. Otherwise `render` makes a picture of what the value shows
    /// now; where it fails, its failure is returned and the old picture stays.
    pub fn before_draw<E, R: FnOnce(V::Value) -> Result<T, E>>(&mut self, render: R) -> (r:
        Result<(), E>)
        requires
            V::Value::obeys_eq_spec(),
            render.requires((old(self).value.cached(),)),
        ensures
            final(self).value == old(self).value,
            !old(self).stale() ==> r is Ok && final(self).text == old(self).text,
            old(self).stale() ==> match r {
                Ok(_) => final(self).text.value.0 == old(self).value && render.ensures(
                    (old(self).value.cached(),),
                    Ok(final(self).text.texture),
                ),
                Err(e) => final(self).text == old(self).text && render.ensures(
                    (old(self).value.cached(),),
                    Err(e),
                ),
            },
    {
        let updated = CacheValue(self.value);
        if !self.text.value.same(&updated) {
            match TextCache::load(updated, render) {
                Ok(text) => {
                    self.text = text;
                },
                Err(e) => {
                    return Err(e);
                },
            }
        }
        Ok(())
    }
}

} // verus!
