//! The fixed-timestep clock that decides, on each poll of the main loop,
//! whether the simulation advances by one tick, and that measures the rate
//! of simulation ticks per wall-clock second.
//!
//! Time is a monotonic count of microseconds.

use vstd::prelude::*;

verus! {

/// The fixed simulation period, in microseconds.
pub const DELTA_TIME: u64 = 16_000;

/// One wall-clock second, in microseconds.
pub const ONE_SECOND: u64 = 1_000_000;

/// The first tick; lower values stay free to mean "never".
pub const TICK_EPOCH: u64 = 1000;

/// The first deadline at or after `now`, stepping from `deadline` by the
/// period; `deadline` itself when it is not in the past.
pub open spec fn catch_up(deadline: int, now: int) -> int
    decreases now + DELTA_TIME - deadline,
{
    if deadline < now {
        catch_up(deadline + DELTA_TIME, now)
    } else {
        deadline
    }
}

/// The clock state of the simulation loop.
#[derive(Clone, Copy, Debug)]
pub struct Scheduler {
    /// Logical frame counter.
    pub tick: u64,
    /// When the next tick is due.
    pub nextframe: u64,
    /// Ticks counted in the last whole measured second.
    pub fps: u32,
    /// Ticks counted since `start_this_second`.
    pub frames_this_second: u32,
    /// Start of the second being measured.
    pub start_this_second: u64,
}

/// The clock can take a poll at `now` without leaving its integer ranges.
pub open spec fn can_advance(s: Scheduler, now: u64) -> bool {
    &&& now <= u64::MAX - DELTA_TIME
    &&& s.tick < u64::MAX
    &&& s.frames_this_second < u32::MAX
}

/// A tick is due at `now`.
pub open spec fn is_due(s: Scheduler, now: u64) -> bool {
    now > s.nextframe
}

/// The clock after a poll at `now`, and whether the simulation runs one
/// update: at most one per poll, however many deadlines passed.
pub open spec fn advance_spec(s: Scheduler, now: u64) -> (Scheduler, bool) {
    let due = is_due(s, now);
    let ticked = if due {
        Scheduler {
            tick: (s.tick + 1) as u64,
            nextframe: catch_up(s.nextframe as int, now as int) as u64,
            frames_this_second: (s.frames_this_second + 1) as u32,
            ..s
        }
    } else {
        s
    };
    let measured = if now > ticked.start_this_second && now - ticked.start_this_second > ONE_SECOND {
        Scheduler {
            start_this_second: now,
            fps: ticked.frames_this_second,
            frames_this_second: 0,
            ..ticked
        }
    } else {
        ticked
    };
    (measured, due)
}

/// The clock after polls at each of `nows`, in order.
pub open spec fn run_spec(s: Scheduler, nows: Seq<u64>) -> Scheduler
    decreases nows.len(),
{
    if nows.len() == 0 {
        s
    } else {
        advance_spec(run_spec(s, nows.drop_last()), nows.last()).0
    }
}

/// How many of the polls at `nows` ran an update.
pub open spec fn updates_run(s: Scheduler, nows: Seq<u64>) -> nat
    decreases nows.len(),
{
    if nows.len() == 0 {
        0
    } else {
        let before = run_spec(s, nows.drop_last());
        updates_run(s, nows.drop_last()) + if advance_spec(before, nows.last()).1 {
            1nat
        } else {
            0nat
        }
    }
}

impl Scheduler {
    /// A clock started at `now`.
    pub open spec fn new_spec(now: u64) -> Scheduler {
        Scheduler {
            tick: TICK_EPOCH,
            nextframe: now,
            fps: 0,
            frames_this_second: 0,
            start_this_second: now,
        }
    }

    /// A clock started at `now`: the first tick is due once time moves on.
    pub fn new(now: u64) -> (r: Scheduler)
        ensures
            r == Scheduler::new_spec(now),
    {
        Scheduler {
            tick: TICK_EPOCH,
            nextframe: now,
            fps: 0,
            frames_this_second: 0,
            start_this_second: now,
        }
    }

    /// Whether a poll at `now` keeps every counter in range.
    pub fn can_advance(&self, now: u64) -> (r: bool)
        ensures
            r == can_advance(*self, now),
    {
        now <= u64::MAX - DELTA_TIME && self.tick < u64::MAX && self.frames_this_second
            < u32::MAX
    }

    /// Polls the clock at `now`. When the deadline has passed, the tick
    /// advances by exactly one and the deadline moves to the first step of
    /// the period at or after `now`, dropping the missed ones; the result
    /// says whether to run the update. Once per wall-clock second the tick
    /// count of that second becomes the measured rate.
    pub fn advance(&mut self, now: u64) -> (r: bool)
        requires
            can_advance(*old(self), now),
        ensures
            (*final(self), r) == advance_spec(*old(self), now),
    {
        let due = now > self.nextframe;
        if due {
            while self.nextframe < now
                invariant
                    self.nextframe <= now + DELTA_TIME,
                    now <= u64::MAX - DELTA_TIME,
                    catch_up(self.nextframe as int, now as int) == catch_up(
                        old(self).nextframe as int,
                        now as int,
                    ),
                    self.tick == old(self).tick,
                    self.frames_this_second == old(self).frames_this_second,
                    self.fps == old(self).fps,
                    self.start_this_second == old(self).start_this_second,
                decreases now + DELTA_TIME - self.nextframe,
            {
                self.nextframe = self.nextframe + DELTA_TIME;
            }
            self.tick = self.tick + 1;
            self.frames_this_second = self.frames_this_second + 1;
        }
        if now > self.start_this_second && now - self.start_this_second > ONE_SECOND {
            self.start_this_second = now;
            self.fps = self.frames_this_second;
            self.frames_this_second = 0;
        }
        due
    }
}

/// The deadline after catching up is not in the past, lies less than one
/// period after `now` when it was in the past, and stays on the grid of
/// whole periods from where it was.
pub proof fn lemma_catch_up_aligned(deadline: int, now: int)
    ensures
        catch_up(deadline, now) >= now,
        catch_up(deadline, now) >= deadline,
        deadline < now ==> catch_up(deadline, now) < now + DELTA_TIME,
        (catch_up(deadline, now) - deadline) % (DELTA_TIME as int) == 0,
    decreases now + DELTA_TIME - deadline,
{
    if deadline < now {
        lemma_catch_up_aligned(deadline + DELTA_TIME, now);
        let c = catch_up(deadline + DELTA_TIME, now);
        assert((c - deadline) % (DELTA_TIME as int) == 0) by {
            vstd::arithmetic::div_mod::lemma_mod_add_multiples_vanish(
                c - deadline - DELTA_TIME,
                DELTA_TIME as int,
            );
        }
    }
}

/// Over any run of polls, the updates run are exactly the polls at which a
/// tick was due, never more than one per poll: the tick counter grows by
/// that number and by at most the number of polls.
pub proof fn lemma_ticks_bounded_by_polls(s: Scheduler, nows: Seq<u64>)
    requires
        s.tick + nows.len() <= u64::MAX,
    ensures
        run_spec(s, nows).tick == s.tick + updates_run(s, nows),
        updates_run(s, nows) <= nows.len(),
    decreases nows.len(),
{
    if nows.len() > 0 {
        lemma_ticks_bounded_by_polls(s, nows.drop_last());
    }
}

/// A poll that runs an update leaves the next deadline after `now`, at most
/// one period later; so the following poll runs one only once a whole period
/// of the grid has passed.
pub proof fn lemma_update_reschedules(s: Scheduler, now: u64)
    requires
        can_advance(s, now),
        is_due(s, now),
    ensures
        advance_spec(s, now).1,
        advance_spec(s, now).0.tick == s.tick + 1,
        advance_spec(s, now).0.nextframe >= now,
        advance_spec(s, now).0.nextframe < now + DELTA_TIME,
        !is_due(advance_spec(s, now).0, now),
{
    lemma_catch_up_aligned(s.nextframe as int, now as int);
}

} // verus!
