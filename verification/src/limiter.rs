//! Contains the frame limiter.

use vstd::prelude::*;

verus! {

/// The nanoseconds in a second.
pub const NANOS_PER_SECOND: u32 = 1_000_000_000;

/// The nanoseconds that have passed at `now` since `last_tick`; none if the
/// clock reads less than it did then.
pub open spec fn elapsed_at(last_tick: u64, now: u64) -> int {
    if now >= last_tick {
        now - last_tick
    } else {
        0
    }
}

/// The nanoseconds to pause at `now` so that the frame that began at
/// `last_tick` lasts `frame_length`: what is left of the frame's length, and
/// nothing where the frame has taken as long or longer.
pub open spec fn pause_at(frame_length: u32, last_tick: u64, now: u64) -> int {
    if elapsed_at(last_tick, now) < frame_length {
        frame_length - elapsed_at(last_tick, now)
    } else {
        0
    }
}

/// Caps the rate of a loop at a number of frames per second.
///
/// Time is what the host's monotonic clock reads, in nanoseconds. The limiter
/// says how long to pause; the host pauses, and then tells the limiter when
/// the next frame begins.
#[derive(Clone, Copy, Debug, PartialEq, Eq)]
pub struct FrameLimiter {
    last_tick: u64,
    max_fps: u32,
    frame_length: u32,
}

impl FrameLimiter {
    /// When the current frame began.
    pub closed spec fn last_tick(self) -> u64 {
        self.last_tick
    }

    /// The frames per second that the limiter was made for.
    pub closed spec fn max_fps(self) -> u32 {
        self.max_fps
    }

    /// The length of a frame in nanoseconds.
    pub closed spec fn frame_length(self) -> u32 {
        self.frame_length
    }

    /// This limiter with a frame that begins at `now`.
    pub closed spec fn ticked(self, now: u64) -> FrameLimiter {
        FrameLimiter { last_tick: now, max_fps: self.max_fps, frame_length: self.frame_length }
    }

    /// Beginning a frame changes nothing but the beginning of the frame.
    pub proof fn lemma_ticked(self, now: u64)
        ensures
            self.ticked(now).last_tick() == now,
            self.ticked(now).max_fps() == self.max_fps(),
            self.ticked(now).frame_length() == self.frame_length(),
    {
    }

    /// Creates a new frame limiter limited to the given amount of frames per
    /// second, whose first frame begins at `now`. A frame lasts the whole
    /// nanoseconds of that fraction of a second.
    pub fn new(max_fps: u32, now: u64) -> (limiter: FrameLimiter)
        requires
            max_fps > 0,
        ensures
            limiter.max_fps() == max_fps,
            limiter.frame_length() == NANOS_PER_SECOND / max_fps,
            limiter.last_tick() == now,
    {
        FrameLimiter { last_tick: now, max_fps, frame_length: NANOS_PER_SECOND / max_fps }
    }

    /// Resets the limiter: a frame begins at `now`.
    pub fn reset(&mut self, now: u64)
        ensures
            *final(self) == old(self).ticked(now),
            final(self).last_tick() == now,
            final(self).max_fps() == old(self).max_fps(),
            final(self).frame_length() == old(self).frame_length(),
    {
        self.last_tick = now;
    }

    /// Tells at `now`, the end of the frame's work, how many nanoseconds to
    /// pause until the remainder of the frame length has passed. A frame that
    /// took too long is not made up for: the pause is then zero, and the next
    /// frame has its full length from the `reset` that follows the pause.
    pub fn limit(&self, now: u64) -> (pause: u64)
        ensures
            pause == pause_at(self.frame_length(), self.last_tick(), now),
    {
        let elapsed: u64 = if now >= self.last_tick {
            now - self.last_tick
        } else {
            0
        };
        let frame_length: u64 = self.frame_length as u64;
        if elapsed < frame_length {
            frame_length - elapsed
        } else {
            0
        }
    }
}

/// A frame whose work ends in time lasts its length: the time that has
/// passed and the pause make up the frame length. The pause is never longer
/// than a frame.
pub proof fn lemma_pause_fills_the_frame(frame_length: u32, last_tick: u64, now: u64)
    ensures
        0 <= pause_at(frame_length, last_tick, now) <= frame_length,
        elapsed_at(last_tick, now) <= frame_length ==> elapsed_at(last_tick, now) + pause_at(
            frame_length,
            last_tick,
            now,
        ) == frame_length,
{
}

/// A frame that took too long is not made up for: its pause is zero, and the
/// pause of the frame after it, which begins at `restart`, is what it would be
/// after any other frame.
pub proof fn lemma_no_catching_up(
    frame_length: u32,
    last_tick: u64,
    now: u64,
    restart: u64,
    later: u64,
)
    requires
        elapsed_at(last_tick, now) >= frame_length,
        restart <= later,
    ensures
        pause_at(frame_length, last_tick, now) == 0,
        later - restart < frame_length ==> pause_at(frame_length, restart, later) == frame_length
            - (later - restart),
{
}

} // verus!
