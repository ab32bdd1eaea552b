//! Runtime-tunable settings shared by the engine and every drop.
//!
//! Probabilities are held in parts per million, so that a roll of a
//! uniform value below `PPM_ONE` can be compared against them exactly.
//! Every setter clamps its input to the documented range; the two trail
//! bounds additionally clamp against the current value of the paired
//! bound, so `min_trail <= max_trail` holds after every call.

use vstd::prelude::*;

verus! {

/// The number of parts per million that stands for probability 1.
pub const PPM_ONE: u32 = 1_000_000;

/// Lowest trail length a drop may be given.
pub const TRAIL_MIN_LIMIT: usize = 4;

/// Highest trail length a drop may be given.
pub const TRAIL_MAX_LIMIT: usize = 40;

/// Lowest configured frame rate, in simulated ticks per second.
pub const FRAMERATE_MIN: u32 = 1;

/// Highest configured frame rate, in simulated ticks per second.
pub const FRAMERATE_MAX: u32 = 15;

/// Clamps `x` into `[lo, hi]`, preferring `lo` when the bounds cross.
pub open spec fn clamped_usize(x: usize, lo: usize, hi: usize) -> usize {
    if x < lo {
        lo
    } else if x > hi {
        hi
    } else {
        x
    }
}

/// Clamps `x` into `[lo, hi]`, preferring `lo` when the bounds cross.
pub open spec fn clamped_u32(x: u32, lo: u32, hi: u32) -> u32 {
    if x < lo {
        lo
    } else if x > hi {
        hi
    } else {
        x
    }
}

/// The shared configuration store. Constructed once at startup and then
/// threaded by reference through the engine and the drop constructors.
pub struct Config {
    /// Simulated ticks per second; scales how far a drop moves per
    /// elapsed second. Always in `[FRAMERATE_MIN, FRAMERATE_MAX]`.
    pub framerate: u32,
    /// Smallest trail length drawn at drop creation.
    pub min_trail: usize,
    /// Largest trail length drawn at drop creation.
    pub max_trail: usize,
    /// Chance per glyph per rendered frame of showing a glitch glyph.
    pub glitch_ppm: u32,
    /// Chance per glyph per rendered frame of rendering blank.
    pub flicker_ppm: u32,
    /// Chance that an expiring drop leaves a stuck glyph behind.
    pub stuck_ppm: u32,
    /// Chance per empty column per spawn check of starting a new drop.
    pub new_drop_ppm: u32,
    /// Most entries the stuck table may hold; 0 means unbounded.
    pub stuck_capacity: usize,
}

impl Config {
    /// The store's invariant: bounds ordered and every probability
    /// at most one.
    pub open spec fn wf(&self) -> bool {
        &&& FRAMERATE_MIN <= self.framerate <= FRAMERATE_MAX
        &&& TRAIL_MIN_LIMIT <= self.min_trail
        &&& self.min_trail <= self.max_trail
        &&& self.max_trail <= TRAIL_MAX_LIMIT
        &&& self.glitch_ppm <= PPM_ONE
        &&& self.flicker_ppm <= PPM_ONE
        &&& self.stuck_ppm <= PPM_ONE
        &&& self.new_drop_ppm <= PPM_ONE
    }

    /// A store with the stock tunables.
    pub fn new() -> (r: Config)
        ensures
            r.wf(),
            r.framerate == 12,
            r.min_trail == 8,
            r.max_trail == 25,
            r.glitch_ppm == 3000,
            r.flicker_ppm == 10000,
            r.stuck_ppm == 20000,
            r.new_drop_ppm == 50000,
            r.stuck_capacity == 0,
    {
        Config {
            framerate: 12,
            min_trail: 8,
            max_trail: 25,
            glitch_ppm: 3000,
            flicker_ppm: 10000,
            stuck_ppm: 20000,
            new_drop_ppm: 50000,
            stuck_capacity: 0,
        }
    }

    pub fn set_framerate(&mut self, fps: u32)
        ensures
            *final(self) == (Config {
                framerate: clamped_u32(fps, FRAMERATE_MIN, FRAMERATE_MAX),
                ..*old(self)
            }),
            old(self).wf() ==> final(self).wf(),
    {
        self.framerate = clamp_u32(fps, FRAMERATE_MIN, FRAMERATE_MAX);
    }

    pub fn get_framerate(&self) -> (r: u32)
        ensures
            r == self.framerate,
    {
        self.framerate
    }

    pub fn set_glitch_probability(&mut self, ppm: u32)
        ensures
            *final(self) == (Config { glitch_ppm: clamped_u32(ppm, 0, PPM_ONE), ..*old(self) }),
            old(self).wf() ==> final(self).wf(),
    {
        self.glitch_ppm = clamp_u32(ppm, 0, PPM_ONE);
    }

    pub fn get_glitch_probability(&self) -> (r: u32)
        ensures
            r == self.glitch_ppm,
    {
        self.glitch_ppm
    }

    pub fn set_flicker_probability(&mut self, ppm: u32)
        ensures
            *final(self) == (Config { flicker_ppm: clamped_u32(ppm, 0, PPM_ONE), ..*old(self) }),
            old(self).wf() ==> final(self).wf(),
    {
        self.flicker_ppm = clamp_u32(ppm, 0, PPM_ONE);
    }

    pub fn get_flicker_probability(&self) -> (r: u32)
        ensures
            r == self.flicker_ppm,
    {
        self.flicker_ppm
    }

    pub fn set_stuck_probability(&mut self, ppm: u32)
        ensures
            *final(self) == (Config { stuck_ppm: clamped_u32(ppm, 0, PPM_ONE), ..*old(self) }),
            old(self).wf() ==> final(self).wf(),
    {
        self.stuck_ppm = clamp_u32(ppm, 0, PPM_ONE);
    }

    pub fn get_stuck_probability(&self) -> (r: u32)
        ensures
            r == self.stuck_ppm,
    {
        self.stuck_ppm
    }

    pub fn set_new_drop_probability(&mut self, ppm: u32)
        ensures
            *final(self) == (Config { new_drop_ppm: clamped_u32(ppm, 0, PPM_ONE), ..*old(self) }),
            old(self).wf() ==> final(self).wf(),
    {
        self.new_drop_ppm = clamp_u32(ppm, 0, PPM_ONE);
    }

    pub fn get_new_drop_probability(&self) -> (r: u32)
        ensures
            r == self.new_drop_ppm,
    {
        self.new_drop_ppm
    }

    /// Clamps against the current upper bound as well, so the invariant
    /// `min_trail <= max_trail` is restored after every call.
    pub fn set_min_trail(&mut self, len: usize)
        ensures
            *final(self) == (Config {
                min_trail: clamped_usize(
                    len,
                    TRAIL_MIN_LIMIT,
                    if old(self).max_trail < TRAIL_MAX_LIMIT {
                        old(self).max_trail
                    } else {
                        TRAIL_MAX_LIMIT
                    },
                ),
                ..*old(self)
            }),
            old(self).wf() ==> final(self).wf(),
    {
        let hi = if self.max_trail < TRAIL_MAX_LIMIT {
            self.max_trail
        } else {
            TRAIL_MAX_LIMIT
        };
        self.min_trail = clamp_usize(len, TRAIL_MIN_LIMIT, hi);
    }

    pub fn get_min_trail(&self) -> (r: usize)
        ensures
            r == self.min_trail,
    {
        self.min_trail
    }

    /// Clamps against the current lower bound as well, so the invariant
    /// `min_trail <= max_trail` is restored after every call.
    pub fn set_max_trail(&mut self, len: usize)
        ensures
            *final(self) == (Config {
                max_trail: clamped_usize(
                    len,
                    if old(self).min_trail > TRAIL_MIN_LIMIT {
                        old(self).min_trail
                    } else {
                        TRAIL_MIN_LIMIT
                    },
                    TRAIL_MAX_LIMIT,
                ),
                ..*old(self)
            }),
            old(self).wf() ==> final(self).wf(),
    {
        let lo = if self.min_trail > TRAIL_MIN_LIMIT {
            self.min_trail
        } else {
            TRAIL_MIN_LIMIT
        };
        self.max_trail = clamp_usize(len, lo, TRAIL_MAX_LIMIT);
    }

    pub fn get_max_trail(&self) -> (r: usize)
        ensures
            r == self.max_trail,
    {
        self.max_trail
    }

    pub fn set_stuck_capacity(&mut self, cap: usize)
        ensures
            *final(self) == (Config { stuck_capacity: cap, ..*old(self) }),
            old(self).wf() ==> final(self).wf(),
    {
        self.stuck_capacity = cap;
    }

    pub fn get_stuck_capacity(&self) -> (r: usize)
        ensures
            r == self.stuck_capacity,
    {
        self.stuck_capacity
    }
}

/// Executable counterpart of `clamped_u32`.
fn clamp_u32(x: u32, lo: u32, hi: u32) -> (r: u32)
    ensures
        r == clamped_u32(x, lo, hi),
{
    if x < lo {
        lo
    } else if x > hi {
        hi
    } else {
        x
    }
}

/// Executable counterpart of `clamped_usize`.
fn clamp_usize(x: usize, lo: usize, hi: usize) -> (r: usize)
    ensures
        r == clamped_usize(x, lo, hi),
{
    if x < lo {
        lo
    } else if x > hi {
        hi
    } else {
        x
    }
}

} // verus!
