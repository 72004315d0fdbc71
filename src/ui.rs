//! Timed UI transitions measured in simulation ticks: a two-state mode that
//! animates between inactive and active, and a cursor over a bounded list.

use vstd::prelude::*;

verus! {

/// Ticks elapsed since `start`, capped at `frames`.
pub open spec fn elapsed_capped(frames: u64, tick: u64, start: u64) -> int {
    if tick - start < frames {
        tick - start
    } else {
        frames as int
    }
}

/// The start tick that makes a reversed transition resume at the point the
/// current one reached: the part of `frames` not yet played is counted as
/// already played in the other direction.
pub open spec fn reverse_start(frames: u64, tick: u64, start: u64) -> int {
    tick - (frames - elapsed_capped(frames, tick, start))
}

/// A reversal at `tick` of a transition started at `start` stays within
/// the tick range.
pub open spec fn can_reverse(frames: u64, tick: u64, start: u64) -> bool {
    tick >= start && reverse_start(frames, tick, start) >= 0
}

fn compute_reverse(frames: u64, tick: u64, start: u64) -> (r: u64)
    requires
        can_reverse(frames, tick, start),
    ensures
        r == reverse_start(frames, tick, start),
{
    let elapsed = tick - start;
    let capped = if elapsed < frames { elapsed } else { frames };
    let leftover = frames - capped;
    tick - leftover
}

/// Which way the mode last turned, and at which tick.
#[derive(Clone, Copy, Debug, PartialEq, Eq, Structural)]
pub enum ModeToggle {
    Inactive { start: u64 },
    Active { start: u64 },
}

/// The tick at which the toggle last turned.
pub open spec fn toggle_start(t: ModeToggle) -> u64 {
    match t {
        ModeToggle::Inactive { start } => start,
        ModeToggle::Active { start } => start,
    }
}

/// A two-state mode whose transitions take `frames` ticks and that can be
/// locked against further reversals.
pub struct Mode {
    frames: u64,
    toggle: ModeToggle,
    locked: bool,
}

/// What a `Mode` holds.
pub struct ModeView {
    pub frames: u64,
    pub toggle: ModeToggle,
    pub locked: bool,
}

impl View for Mode {
    type V = ModeView;

    closed spec fn view(&self) -> ModeView {
        ModeView { frames: self.frames, toggle: self.toggle, locked: self.locked }
    }
}

impl Mode {
    /// Inactive since tick zero, unlocked.
    pub fn new(frames: u64) -> (r: Mode)
        ensures
            r@ == (ModeView { frames, toggle: ModeToggle::Inactive { start: 0 }, locked: false }),
    {
        Mode { frames, toggle: ModeToggle::Inactive { start: 0 }, locked: false }
    }

    /// Is the current state active?
    pub fn is_active(&self) -> (r: bool)
        ensures
            r == self@.toggle is Active,
    {
        match self.toggle {
            ModeToggle::Inactive { .. } => false,
            ModeToggle::Active { .. } => true,
        }
    }

    pub fn is_locked(&self) -> (r: bool)
        ensures
            r == self@.locked,
    {
        self.locked
    }

    /// The tick at which the current transition started.
    pub fn started(&self) -> (r: u64)
        ensures
            r == toggle_start(self@.toggle),
    {
        match self.toggle {
            ModeToggle::Inactive { start } => start,
            ModeToggle::Active { start } => start,
        }
    }

    /// The length of a transition, in ticks.
    pub fn frames(&self) -> (r: u64)
        ensures
            r == self@.frames,
    {
        self.frames
    }

    /// Has the current transition finished?
    pub fn is_ready(&self, tick: u64) -> (r: bool)
        requires
            tick >= toggle_start(self@.toggle),
        ensures
            r == (tick - toggle_start(self@.toggle) > self@.frames),
    {
        let started = self.started();
        tick - started > self.frames
    }

    /// Inactive since tick zero, unlocked.
    pub fn reset(&mut self)
        ensures
            final(self)@ == (ModeView {
                frames: old(self)@.frames,
                toggle: ModeToggle::Inactive { start: 0 },
                locked: false,
            }),
    {
        self.locked = false;
        self.toggle = ModeToggle::Inactive { start: 0 };
    }

    /// Unless locked, turns the mode the other way at `tick`, resuming from
    /// the point the current transition reached, and locks it; the result
    /// says whether it turned.
    pub fn reverse(&mut self, tick: u64) -> (r: bool)
        requires
            !old(self)@.locked ==> can_reverse(
                old(self)@.frames,
                tick,
                toggle_start(old(self)@.toggle),
            ),
        ensures
            r == !old(self)@.locked,
            old(self)@.locked ==> final(self)@ == old(self)@,
            !old(self)@.locked ==> {
                let start = reverse_start(old(self)@.frames, tick, toggle_start(old(self)@.toggle));
                &&& final(self)@.frames == old(self)@.frames
                &&& final(self)@.locked
                &&& final(self)@.toggle == match old(self)@.toggle {
                    ModeToggle::Inactive { .. } => ModeToggle::Active { start: start as u64 },
                    ModeToggle::Active { .. } => ModeToggle::Inactive { start: start as u64 },
                }
            },
    {
        if !self.locked {
            self.locked = true;
            match self.toggle {
                ModeToggle::Inactive { start } => {
                    self.toggle = ModeToggle::Active {
                        start: compute_reverse(self.frames, tick, start),
                    };
                },
                ModeToggle::Active { start } => {
                    self.toggle = ModeToggle::Inactive {
                        start: compute_reverse(self.frames, tick, start),
                    };
                },
            }
            true
        } else {
            false
        }
    }

    pub fn lock(&mut self)
        ensures
            final(self)@ == (ModeView { locked: true, ..old(self)@ }),
    {
        self.locked = true;
    }

    pub fn unlock(&mut self)
        ensures
            final(self)@ == (ModeView { locked: false, ..old(self)@ }),
    {
        self.locked = false;
    }
}

/// The remainder of `a` divided by `b`, with the sign of `a`, as Rust's `%`.
pub open spec fn trunc_rem(a: int, b: int) -> int {
    if a >= 0 {
        a % b
    } else {
        -((-a) % b)
    }
}

fn rem_i32(a: i32, b: i32) -> (r: i32)
    requires
        b > 0,
    ensures
        r == trunc_rem(a as int, b as int),
        -b < r < b,
{
    if a >= 0 {
        a % b
    } else {
        let m = (-(a as i64)) % (b as i64);
        -(m as i32)
    }
}

/// A selection over `bound` entries whose moves animate over `frames` ticks.
pub struct Cursor {
    pub index: i32,
    pub prev_index: i32,
    pub change_started: u64,
    pub bound: i32,
    pub frames: u64,
    pub locked: bool,
}

impl Cursor {
    /// At entry zero, unlocked.
    pub fn new(bound: i32, frames: u64) -> (r: Cursor)
        ensures
            r == (Cursor {
                index: 0,
                prev_index: 0,
                change_started: 0,
                bound,
                frames,
                locked: false,
            }),
    {
        Cursor { index: 0, prev_index: 0, change_started: 0, bound, frames, locked: false }
    }

    /// Has the last move finished animating?
    pub fn is_ready(&self, tick: u64) -> (r: bool)
        requires
            tick >= self.change_started,
        ensures
            r == (tick - self.change_started > self.frames),
    {
        tick - self.change_started > self.frames
    }

    /// Moves to entry `val` modulo the bound, unless a move is still
    /// animating while the cursor is locked; the result says whether it
    /// moved. A move locks the cursor.
    pub fn set(&mut self, val: i32, tick: u64) -> (r: bool)
        requires
            old(self).bound > 0,
            tick >= old(self).change_started,
        ensures
            r == (tick - old(self).change_started > old(self).frames || !old(self).locked),
            r ==> *final(self) == (Cursor {
                index: trunc_rem(val as int, old(self).bound as int) as i32,
                prev_index: old(self).index,
                change_started: tick,
                locked: true,
                ..*old(self)
            }),
            !r ==> *final(self) == *old(self),
    {
        if self.is_ready(tick) || !self.locked {
            self.change_started = tick;
            self.prev_index = self.index;
            self.index = rem_i32(val, self.bound);
            self.locked = true;
            true
        } else {
            false
        }
    }

    /// Moves one entry forward, wrapping at the bound.
    pub fn increment(&mut self, tick: u64) -> (r: bool)
        requires
            old(self).bound > 0,
            old(self).index < i32::MAX,
            tick >= old(self).change_started,
        ensures
            r == (tick - old(self).change_started > old(self).frames || !old(self).locked),
            r ==> *final(self) == (Cursor {
                index: trunc_rem(old(self).index + 1, old(self).bound as int) as i32,
                prev_index: old(self).index,
                change_started: tick,
                locked: true,
                ..*old(self)
            }),
            !r ==> *final(self) == *old(self),
    {
        self.set(self.index + 1, tick)
    }

    /// Moves one entry back, wrapping at zero.
    pub fn decrement(&mut self, tick: u64) -> (r: bool)
        requires
            old(self).bound > 0,
            old(self).index + old(self).bound <= i32::MAX,
            tick >= old(self).change_started,
        ensures
            r == (tick - old(self).change_started > old(self).frames || !old(self).locked),
            r ==> *final(self) == (Cursor {
                index: trunc_rem(old(self).index + old(self).bound - 1, old(self).bound as int)
                    as i32,
                prev_index: old(self).index,
                change_started: tick,
                locked: true,
                ..*old(self)
            }),
            !r ==> *final(self) == *old(self),
    {
        self.set(self.index + self.bound - 1, tick)
    }

    pub fn unlock(&mut self)
        ensures
            *final(self) == (Cursor { locked: false, ..*old(self) }),
    {
        self.locked = false;
    }
}

} // verus!
