//! Position accounting for one playing instance.
//!
//! A sink cannot say where it is in a sound. The position is derived from the
//! instant at which the sink was started, the offset at which it started, and
//! the time the instance has spent paused since. The pause time is gathered by
//! polling: every tick is told whether the sink is paused right now.

use vstd::prelude::*;
use crate::clock::{add_capped, capped, elapsed_between, least, minus, span, sub_floored};

verus! {

/// Milliseconds between two progress ticks of an instance.
pub const TICK_MS: u64 = 30;

/// Milliseconds to wait before a sink that looks empty is looked at again.
pub const SETTLE_MS: u64 = 10;

/// What a reporter remembers between two ticks.
#[derive(Clone, Copy, Debug, PartialEq, Eq, Structural)]
pub struct ProgressTracker {
    /// Time spent paused since the current sink was started.
    pub paused_total: u64,
    /// The tick at which the current pause was first seen, while paused.
    pub pause_started: Option<u64>,
    /// The base offset seen at the previous tick.
    pub last_offset: u64,
}

impl ProgressTracker {
    /// The tracker after it has noticed a new sink: a base offset other than
    /// the one of the previous tick forgets all pause time.
    pub open spec fn resynced(self, base: u64, paused: bool, now: u64) -> ProgressTracker {
        if base != self.last_offset {
            ProgressTracker {
                paused_total: 0,
                pause_started: if paused {
                    Some(now)
                } else {
                    None
                },
                last_offset: base,
            }
        } else {
            self
        }
    }

    /// The tracker after a tick at `now` that found the sink at `base`,
    /// paused or not.
    pub open spec fn advanced(self, base: u64, paused: bool, now: u64) -> ProgressTracker {
        let synced = self.resynced(base, paused, now);
        match synced.pause_started {
            Some(since) => if paused {
                synced
            } else {
                ProgressTracker {
                    paused_total: capped(synced.paused_total + span(since, now)),
                    pause_started: None,
                    last_offset: synced.last_offset,
                }
            },
            None => if paused {
                ProgressTracker {
                    paused_total: synced.paused_total,
                    pause_started: Some(now),
                    last_offset: synced.last_offset,
                }
            } else {
                synced
            },
        }
    }

    /// Time the sink started at `start` has spent playing, as seen at `now`:
    /// wall-clock time up to `now`, or up to the start of the pause that is
    /// going on, less all earlier pause time.
    pub open spec fn elapsed(self, start: u64, now: u64) -> int {
        let wall = match self.pause_started {
            Some(since) => span(start, since),
            None => span(start, now),
        };
        minus(wall, self.paused_total as int)
    }

    /// The tracker has noted no pause later than `now`. On a clock that does
    /// not run backwards this holds at every tick.
    pub open spec fn not_ahead_of(self, now: u64) -> bool {
        self.pause_started matches Some(since) ==> since <= now
    }

    /// A tracker for a sink that starts at `base`.
    pub fn new(base: u64) -> (tracker: ProgressTracker)
        ensures
            tracker == (ProgressTracker { paused_total: 0, pause_started: None, last_offset: base }),
    {
        ProgressTracker { paused_total: 0, pause_started: None, last_offset: base }
    }

    /// Takes in one observation of the sink.
    pub fn observe(&mut self, base: u64, paused: bool, now: u64)
        ensures
            *final(self) == old(self).advanced(base, paused, now),
    {
        if base != self.last_offset {
            self.paused_total = 0;
            self.last_offset = base;
            self.pause_started = if paused {
                Some(now)
            } else {
                None
            };
        }
        match self.pause_started {
            Some(since) => {
                if !paused {
                    self.paused_total = add_capped(self.paused_total, elapsed_between(since, now));
                    self.pause_started = None;
                }
            },
            None => {
                if paused {
                    self.pause_started = Some(now);
                }
            },
        }
    }

    /// Time played since `start`, as seen at `now`.
    pub fn played(&self, start: u64, now: u64) -> (ms: u64)
        ensures
            ms == self.elapsed(start, now),
    {
        let wall = match self.pause_started {
            Some(since) => elapsed_between(start, since),
            None => elapsed_between(start, now),
        };
        sub_floored(wall, self.paused_total)
    }
}

/// Where in the sound an instance is: `base` plus the time played.
pub open spec fn position(base: u64, elapsed: int) -> int {
    base + elapsed
}

/// The position that is reported: never beyond the sound's duration.
pub open spec fn reported(base: u64, elapsed: int, duration: u64) -> int {
    least(position(base, elapsed), duration as int)
}

/// The position to report for an instance that has played `elapsed`
/// milliseconds since its sink was started at `base`.
pub fn clamp_position(base: u64, elapsed: u64, duration: u64) -> (ms: u64)
    ensures
        ms == reported(base, elapsed as int, duration),
        ms <= duration,
{
    let at = add_capped(base, elapsed);
    if at < duration {
        at
    } else {
        duration
    }
}

/// What a reporter does next.
#[derive(Clone, Copy, Debug, PartialEq, Eq, Structural)]
pub enum ReporterStep {
    /// Wait [`TICK_MS`] and report again.
    Report,
    /// Wait [`SETTLE_MS`] and look at the sink once more.
    Settle,
    /// The instance is over: take it out of the table and say that it
    /// finished.
    Finish,
}

/// The step after a tick, given what the sink that was reported on says
/// about itself and whether the instance is still live. A sink with audio
/// left plays on. An empty sink of a live instance may be one that a seek has
/// just replaced, so it is looked at again after a while.
pub open spec fn step_after_tick(sink_empty: bool, live: bool) -> ReporterStep {
    if !sink_empty {
        ReporterStep::Report
    } else if live {
        ReporterStep::Settle
    } else {
        ReporterStep::Finish
    }
}

/// The step after the settle time, given the sink the instance has now:
/// `None` if the instance is gone, else whether that sink is empty.
pub open spec fn step_after_settle(current_sink_empty: Option<bool>) -> ReporterStep {
    match current_sink_empty {
        Some(false) => ReporterStep::Report,
        _ => ReporterStep::Finish,
    }
}

/// Decides what follows a tick.
pub fn after_tick(sink_empty: bool, live: bool) -> (step: ReporterStep)
    ensures
        step == step_after_tick(sink_empty, live),
{
    if !sink_empty {
        ReporterStep::Report
    } else if live {
        ReporterStep::Settle
    } else {
        ReporterStep::Finish
    }
}

/// Decides what follows the settle time.
pub fn after_settle(current_sink_empty: Option<bool>) -> (step: ReporterStep)
    ensures
        step == step_after_settle(current_sink_empty),
{
    match current_sink_empty {
        Some(false) => ReporterStep::Report,
        _ => ReporterStep::Finish,
    }
}

} // verus!
