//! The season scheduler: an ordered sequence of timed intervals, each
//! gating which player actions are active, with a win signal when the
//! countdown of the final interval elapses.

use vstd::prelude::*;

verus! {

/// The kinds of season. Only `Build` (tower and obstacle placement) and
/// `Heal` (heal click) gate distinct mechanics; the other kinds are
/// declared states with no mechanics attached.
#[derive(Clone, Copy, Default, Eq, PartialEq, Debug, Hash, Structural)]
pub enum Season {
    #[default]
    Build,
    Heal,
    Upgrade,
    Neutralize,
}

/// A countdown that repeats: ticking it by at least the remaining time
/// completes it and rewinds it to its full period.
#[derive(Clone, Copy, Debug, Eq, PartialEq, Structural)]
pub struct CountdownTimer {
    pub period_ms: u64,
    pub remaining_ms: u64,
}

impl CountdownTimer {
    /// A fresh timer with the full period remaining.
    pub fn new(period_ms: u64) -> (t: CountdownTimer)
        ensures
            t.period_ms == period_ms,
            t.remaining_ms == period_ms,
    {
        CountdownTimer { period_ms, remaining_ms: period_ms }
    }

    /// Advances the timer and reports whether it completed this tick;
    /// on completion it rewinds to the full period.
    pub fn tick(&mut self, delta_ms: u64) -> (fired: bool)
        ensures
            fired == (delta_ms >= old(self).remaining_ms),
            final(self).period_ms == old(self).period_ms,
            final(self).remaining_ms == if delta_ms >= old(self).remaining_ms {
                old(self).period_ms
            } else {
                (old(self).remaining_ms - delta_ms) as u64
            },
    {
        if delta_ms >= self.remaining_ms {
            self.remaining_ms = self.period_ms;
            true
        } else {
            self.remaining_ms = self.remaining_ms - delta_ms;
            false
        }
    }

    /// Rewinds the timer to its full period.
    pub fn reset(&mut self)
        ensures
            final(self).period_ms == old(self).period_ms,
            final(self).remaining_ms == old(self).period_ms,
    {
        self.remaining_ms = self.period_ms;
    }
}

/// One timed interval of the schedule.
#[derive(Clone, Copy, Debug, Eq, PartialEq, Structural)]
pub struct SeasonInterval {
    pub season: Season,
    pub duration_ms: u64,
}

/// What one schedule tick reports.
#[derive(Clone, Copy, Debug, Eq, PartialEq, Structural)]
pub enum SeasonEvent {
    /// The current interval continues.
    Continuing,
    /// The schedule advanced to the next interval, of this kind.
    Changed(Season),
    /// The countdown of the final interval elapsed: the session is won.
    Won,
}

/// The season schedule: intervals, a cursor, the countdown of the
/// current interval, and whether the whole schedule has completed. Once
/// completed it stays completed, and the win is signalled exactly once.
pub struct SeasonSchedule {
    pub intervals: Vec<SeasonInterval>,
    pub current_season_index: usize,
    pub remaining_ms: u64,
    pub finished: bool,
}

/// What [`SeasonSchedule::tick`] does, as a function of the schedule and
/// the elapsed time: the resulting schedule and the event reported.
pub open spec fn spec_season_tick(s: SeasonSchedule, delta_ms: u64) -> (SeasonSchedule, SeasonEvent) {
    if s.finished {
        (s, SeasonEvent::Continuing)
    } else if delta_ms < s.remaining_ms {
        (
            SeasonSchedule { remaining_ms: (s.remaining_ms - delta_ms) as u64, ..s },
            SeasonEvent::Continuing,
        )
    } else if s.current_season_index + 1 < s.intervals@.len() {
        (
            SeasonSchedule {
                current_season_index: (s.current_season_index + 1) as usize,
                remaining_ms: s.intervals@[s.current_season_index + 1].duration_ms,
                ..s
            },
            SeasonEvent::Changed(s.intervals@[s.current_season_index + 1].season),
        )
    } else {
        (SeasonSchedule { finished: true, ..s }, SeasonEvent::Won)
    }
}

impl SeasonSchedule {
    /// An active schedule's cursor points at a real interval, with no
    /// more than that interval's duration left on the countdown.
    pub open spec fn wf(self) -> bool {
        !self.finished ==> self.current_season_index < self.intervals@.len()
            && self.remaining_ms <= self.intervals@[self.current_season_index as int].duration_ms
    }

    /// Starts the schedule at its first interval; an empty schedule is
    /// complete from the start and never signals a win.
    pub fn new(intervals: Vec<SeasonInterval>) -> (s: SeasonSchedule)
        ensures
            s.wf(),
            s.intervals@ == intervals@,
            s.current_season_index == 0,
            s.finished == (intervals@.len() == 0),
            intervals@.len() > 0 ==> s.remaining_ms == intervals@[0].duration_ms,
    {
        if intervals.len() > 0 {
            let first = intervals[0].duration_ms;
            SeasonSchedule {
                intervals,
                current_season_index: 0,
                remaining_ms: first,
                finished: false,
            }
        } else {
            SeasonSchedule { intervals, current_season_index: 0, remaining_ms: 0, finished: true }
        }
    }

    /// Rewinds the schedule to its first interval.
    pub fn reset(&mut self)
        ensures
            final(self).wf(),
            final(self).intervals@ == old(self).intervals@,
            final(self).current_season_index == 0,
            final(self).finished == (old(self).intervals@.len() == 0),
            old(self).intervals@.len() > 0 ==> final(self).remaining_ms == old(
                self,
            ).intervals@[0].duration_ms,
    {
        self.current_season_index = 0;
        if self.intervals.len() > 0 {
            self.remaining_ms = self.intervals[0].duration_ms;
            self.finished = false;
        } else {
            self.finished = true;
        }
    }

    /// The kind of the active interval, or `None` once the schedule has
    /// completed.
    pub fn current_season(&self) -> (r: Option<Season>)
        requires
            self.wf(),
        ensures
            match r {
                Some(season) => !self.finished && season
                    == self.intervals@[self.current_season_index as int].season,
                None => self.finished,
            },
    {
        if self.finished {
            None
        } else {
            Some(self.intervals[self.current_season_index].season)
        }
    }

    /// Advances the countdown. When it completes, the cursor moves on:
    /// to the next interval if one remains, else to the completed state,
    /// reporting the win. A completed schedule absorbs every further
    /// tick unchanged, so the win is reported exactly once.
    pub fn tick(&mut self, delta_ms: u64) -> (ev: SeasonEvent)
        requires
            old(self).wf(),
        ensures
            final(self).wf(),
            *final(self) == spec_season_tick(*old(self), delta_ms).0,
            ev == spec_season_tick(*old(self), delta_ms).1,
    {
        if self.finished {
            SeasonEvent::Continuing
        } else if delta_ms < self.remaining_ms {
            self.remaining_ms = self.remaining_ms - delta_ms;
            SeasonEvent::Continuing
        } else if self.intervals.len() - self.current_season_index > 1 {
            self.current_season_index = self.current_season_index + 1;
            self.remaining_ms = self.intervals[self.current_season_index].duration_ms;
            SeasonEvent::Changed(self.intervals[self.current_season_index].season)
        } else {
            self.finished = true;
            SeasonEvent::Won
        }
    }
}

/// The summed duration of the first `n` intervals.
pub open spec fn spec_total_duration(s: Seq<SeasonInterval>, n: int) -> int
    decreases n,
{
    if n <= 0 {
        0
    } else {
        spec_total_duration(s, n - 1) + s[n - 1].duration_ms
    }
}

impl SeasonSchedule {
    /// The whole schedule's duration, for progress indicators;
    /// saturates at the top of the range.
    pub fn total_duration_ms(&self) -> (t: u64)
        ensures
            t as int == (if spec_total_duration(self.intervals@, self.intervals@.len() as int)
                > u64::MAX {
                u64::MAX as int
            } else {
                spec_total_duration(self.intervals@, self.intervals@.len() as int)
            }),
    {
        let mut t: u64 = 0;
        let mut i: usize = 0;
        while i < self.intervals.len()
            invariant
                i <= self.intervals@.len(),
                t as int == (if spec_total_duration(self.intervals@, i as int) > u64::MAX {
                    u64::MAX as int
                } else {
                    spec_total_duration(self.intervals@, i as int)
                }),
            decreases self.intervals@.len() - i,
        {
            let d = self.intervals[i].duration_ms;
            if t > u64::MAX - d {
                t = u64::MAX;
            } else {
                t = t + d;
            }
            i = i + 1;
        }
        t
    }

    /// How much of the schedule has elapsed: the completed intervals
    /// plus the spent part of the current one, saturating at the top of
    /// the range; the whole duration once the schedule has completed.
    pub fn elapsed_ms(&self) -> (t: u64)
        requires
            self.wf(),
        ensures
            self.finished ==> t as int == (if spec_total_duration(
                self.intervals@,
                self.intervals@.len() as int,
            ) > u64::MAX {
                u64::MAX as int
            } else {
                spec_total_duration(self.intervals@, self.intervals@.len() as int)
            }),
            !self.finished ==> ({
                let spent = spec_total_duration(self.intervals@, self.current_season_index as int)
                    + self.intervals@[self.current_season_index as int].duration_ms
                    - self.remaining_ms;
                t as int == (if spent > u64::MAX {
                    u64::MAX as int
                } else {
                    spent
                })
            }),
    {
        let mut t: u64 = 0;
        let mut i: usize = 0;
        let stop = if self.finished {
            self.intervals.len()
        } else {
            self.current_season_index
        };
        while i < stop
            invariant
                stop <= self.intervals@.len(),
                i <= stop,
                t as int == (if spec_total_duration(self.intervals@, i as int) > u64::MAX {
                    u64::MAX as int
                } else {
                    spec_total_duration(self.intervals@, i as int)
                }),
            decreases stop - i,
        {
            let d = self.intervals[i].duration_ms;
            if t > u64::MAX - d {
                t = u64::MAX;
            } else {
                t = t + d;
            }
            i = i + 1;
        }
        if self.finished {
            t
        } else {
            let d = self.intervals[self.current_season_index].duration_ms;
            let spent_here = if self.remaining_ms > d {
                0
            } else {
                d - self.remaining_ms
            };
            if t > u64::MAX - spent_here {
                u64::MAX
            } else {
                t + spent_here
            }
        }
    }
}

/// The schedule after a whole sequence of ticks.
pub open spec fn run_schedule(s: SeasonSchedule, deltas: Seq<u64>) -> SeasonSchedule
    decreases deltas.len(),
{
    if deltas.len() == 0 {
        s
    } else {
        run_schedule(spec_season_tick(s, deltas[0]).0, deltas.drop_first())
    }
}

/// How many of a sequence of ticks report the win.
pub open spec fn count_wins(s: SeasonSchedule, deltas: Seq<u64>) -> nat
    decreases deltas.len(),
{
    if deltas.len() == 0 {
        0
    } else {
        (if spec_season_tick(s, deltas[0]).1 is Won {
            1nat
        } else {
            0nat
        }) + count_wins(spec_season_tick(s, deltas[0]).0, deltas.drop_first())
    }
}

/// However many ticks elapse and however long they are, a schedule
/// signals the win at most once, and a completed schedule never signals
/// it again.
pub proof fn lemma_season_win_once(s: SeasonSchedule, deltas: Seq<u64>)
    ensures
        count_wins(s, deltas) <= 1,
        s.finished ==> count_wins(s, deltas) == 0,
    decreases deltas.len(),
{
    if deltas.len() > 0 {
        let (next, ev) = spec_season_tick(s, deltas[0]);
        lemma_season_win_once(next, deltas.drop_first());
    }
}

} // verus!
