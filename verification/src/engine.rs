use vstd::prelude::*;

verus! {

/// Ticks in a second.
pub const GAME_SPEED: u64 = 60;

/// The most ticks that one frame makes up for.
pub const MAX_SKIP: u32 = 10;

/// The length of one tick, in nanoseconds.
pub const TICK: u64 = 1_000_000_000 / GAME_SPEED;

/// The ticks that are due when `backlog` nanoseconds have not been played
/// yet: as many whole ticks as the backlog holds, and at most [`MAX_SKIP`].
pub open spec fn due(backlog: u64) -> u32 {
    if backlog / TICK <= MAX_SKIP {
        (backlog / TICK) as u32
    } else {
        MAX_SKIP
    }
}

/// The ticks to play before the next frame is drawn, and the time that is left
/// unplayed after them, when `since_update` nanoseconds have passed since the
/// last frame and `backlog` were left over then.
pub fn catch_up(backlog: u64, since_update: u64) -> (r: (u32, u64))
    requires
        backlog + since_update <= u64::MAX,
    ensures
        r.0 == due((backlog + since_update) as u64),
        r.1 == backlog + since_update - r.0 * TICK,
        r.0 < MAX_SKIP ==> r.1 < TICK,
{
    assert(TICK == 16_666_666);
    let mut delta: u64 = backlog + since_update;
    let ghost all = delta;
    let mut loops: u32 = 0;
    while delta >= TICK && loops < MAX_SKIP
        invariant
            loops <= MAX_SKIP,
            TICK == 16_666_666,
            delta + loops * 16_666_666 == all,
        decreases MAX_SKIP - loops,
    {
        delta -= TICK;
        loops += 1;
    }
    (loops, delta)
}

} // verus!
