//! The master poll.
//!
//! Every sink that plays has a meter. A poll goes through all meters, drops
//! those that have fallen silent, and takes the master level from the rest:
//! the largest level among the meters that are heard, each scaled by the
//! volume of its sound and by the master volume. The largest one, not the
//! sum, stands for how loud the mix is.

use vstd::prelude::*;
use crate::clock::{elapsed_between, span};
use crate::levels::LevelData;

verus! {

/// A meter that was not updated for this long is stale.
pub const STALE_AFTER_MS: u64 = 200;

/// Milliseconds between two polls while a meter is live.
pub const ACTIVE_POLL_MS: u64 = 16;

/// Milliseconds between two polls while nothing plays.
pub const IDLE_POLL_MS: u64 = 250;

/// What a poll sees of one meter.
#[derive(Clone, Copy, Debug, PartialEq, Eq, Structural)]
pub struct MeterReading {
    /// The sink has nothing left to play.
    pub drained: bool,
    /// The sink is paused.
    pub paused: bool,
    /// The levels the meter has noted.
    pub levels: LevelData,
}

/// The master level. A level, a volume and the master volume each count
/// steps of 1/65536; their product counts steps of 1/65536 cubed.
#[derive(Clone, Copy, Debug, PartialEq, Eq, Structural)]
pub struct MasterLevelEvent {
    pub peak: u128,
    pub rms: u128,
}

/// A meter stays while its sink has something to play and its levels are
/// fresh.
pub open spec fn is_live(reading: MeterReading, now: u64) -> bool {
    !reading.drained && span(reading.levels.last_update, now) < STALE_AFTER_MS
}

/// A meter counts for the master level while it is live and not paused.
pub open spec fn is_heard(reading: MeterReading, now: u64) -> bool {
    is_live(reading, now) && !reading.paused
}

/// A level as it is heard: scaled by the volume of its sound and by the
/// master volume.
pub open spec fn scaled(level: u32, volume: u32, master_volume: u32) -> int {
    level * volume * master_volume
}

/// What a meter adds to the master peak: its scaled peak if it is heard.
pub open spec fn heard_peak(reading: MeterReading, master_volume: u32, now: u64) -> int {
    if is_heard(reading, now) {
        scaled(reading.levels.peak, reading.levels.volume, master_volume)
    } else {
        0
    }
}

/// What a meter adds to the master RMS: its scaled RMS if it is heard.
pub open spec fn heard_rms(reading: MeterReading, master_volume: u32, now: u64) -> int {
    if is_heard(reading, now) {
        scaled(reading.levels.rms, reading.levels.volume, master_volume)
    } else {
        0
    }
}

/// `peak` is the master peak of `readings`: the largest scaled peak of a
/// meter that is heard, and zero if none is.
pub open spec fn is_master_peak(peak: int, readings: Seq<MeterReading>, master_volume: u32, now: u64) -> bool {
    &&& forall|i: int| 0 <= i < readings.len() ==> heard_peak(#[trigger] readings[i], master_volume, now) <= peak
    &&& peak == 0 || exists|i: int|
        0 <= i < readings.len() && heard_peak(#[trigger] readings[i], master_volume, now) == peak
}

/// `rms` is the master RMS of `readings`: the largest scaled RMS of a meter
/// that is heard, and zero if none is.
pub open spec fn is_master_rms(rms: int, readings: Seq<MeterReading>, master_volume: u32, now: u64) -> bool {
    &&& forall|i: int| 0 <= i < readings.len() ==> heard_rms(#[trigger] readings[i], master_volume, now) <= rms
    &&& rms == 0 || exists|i: int|
        0 <= i < readings.len() && heard_rms(#[trigger] readings[i], master_volume, now) == rms
}

/// `survivors` lists the positions of the live readings, each once and in
/// rising order.
pub open spec fn lists_live(survivors: Seq<usize>, readings: Seq<MeterReading>, now: u64) -> bool {
    &&& forall|j: int|
        0 <= j < survivors.len() ==> (#[trigger] survivors[j]) < readings.len() && is_live(
            readings[survivors[j] as int],
            now,
        )
    &&& forall|i: int, j: int| 0 <= i < j < survivors.len() ==> survivors[i] < survivors[j]
    &&& forall|i: int|
        0 <= i < readings.len() && is_live(#[trigger] readings[i], now) ==> exists|j: int|
            0 <= j < survivors.len() && survivors[j] == i
}

/// The wait until the next poll: short while a meter is live, long while
/// nothing plays.
pub open spec fn poll_interval(live_meters: nat) -> u64 {
    if live_meters > 0 {
        ACTIVE_POLL_MS
    } else {
        IDLE_POLL_MS
    }
}

/// Whether a meter stays.
pub fn check_live(reading: &MeterReading, now: u64) -> (live: bool)
    ensures
        live == is_live(*reading, now),
{
    !reading.drained && elapsed_between(reading.levels.last_update, now) < STALE_AFTER_MS
}

/// Scales a level by the volume of its sound and by the master volume.
pub fn scale(level: u32, volume: u32, master_volume: u32) -> (product: u128)
    ensures
        product == scaled(level, volume, master_volume),
{
    assert(level * volume * master_volume <= 0xffff_ffff * 0xffff_ffff * 0xffff_ffff) by (nonlinear_arith)
        requires
            0 <= level <= 0xffff_ffff,
            0 <= volume <= 0xffff_ffff,
            0 <= master_volume <= 0xffff_ffff,
    ;
    assert(level * volume <= 0xffff_ffff * 0xffff_ffff) by (nonlinear_arith)
        requires
            0 <= level <= 0xffff_ffff,
            0 <= volume <= 0xffff_ffff,
    ;
    (level as u128) * (volume as u128) * (master_volume as u128)
}

/// The outcome of one poll.
pub struct MeterTick {
    /// The positions that the meters that stay had before the poll.
    pub survivors: Vec<usize>,
    /// For each meter that stays, whether it counts for the master level.
    pub heard: Vec<bool>,
    /// The master level to send out.
    pub master: MasterLevelEvent,
    /// Milliseconds to wait until the next poll.
    pub interval_ms: u64,
}

/// The meters of the sinks that play, with meter handles of type `M`.
pub struct MeterManager<M> {
    active_meters: Vec<M>,
}

impl<M> MeterManager<M> {
    /// The meters, oldest first.
    pub closed spec fn view(&self) -> Seq<M> {
        self.active_meters@
    }

    /// A manager without meters.
    pub fn new() -> (manager: Self)
        ensures
            manager@ == Seq::<M>::empty(),
    {
        MeterManager { active_meters: Vec::new() }
    }

    /// Adds the meter of a sink that was just built.
    pub fn add_meter(&mut self, meter: M)
        ensures
            final(self)@ == old(self)@.push(meter),
    {
        self.active_meters.push(meter);
    }

    /// The meters, oldest first.
    pub fn meters(&self) -> (meters: &Vec<M>)
        ensures
            meters@ == self@,
    {
        &self.active_meters
    }

    /// One poll at `now`. `readings` holds what was read of each meter, in
    /// the order of the meters; with any other number of readings nothing is
    /// done. The meters that are not live leave. Those that stay keep their
    /// order. The master level is taken from the meters that are heard.
    pub fn poll(&mut self, readings: &Vec<MeterReading>, master_volume: u32, now: u64) -> (tick: Option<
        MeterTick,
    >)
        ensures
            tick is Some <==> readings@.len() == old(self)@.len(),
            match tick {
                Some(outcome) => {
                    &&& lists_live(outcome.survivors@, readings@, now)
                    &&& final(self)@.len() == outcome.survivors@.len()
                    &&& outcome.heard@.len() == outcome.survivors@.len()
                    &&& forall|j: int|
                        0 <= j < outcome.survivors@.len() ==> (#[trigger] final(self)@[j]) == old(
                            self,
                        )@[outcome.survivors@[j] as int]
                    &&& forall|j: int|
                        0 <= j < outcome.survivors@.len() ==> (#[trigger] outcome.heard@[j])
                            == !readings@[outcome.survivors@[j] as int].paused
                    &&& is_master_peak(outcome.master.peak as int, readings@, master_volume, now)
                    &&& is_master_rms(outcome.master.rms as int, readings@, master_volume, now)
                    &&& outcome.interval_ms == poll_interval(outcome.survivors@.len())
                },
                None => final(self)@ == old(self)@,
            },
    {
        let count = self.active_meters.len();
        if readings.len() != count {
            return None;
        }
        let mut forward: Vec<M> = Vec::new();
        core::mem::swap(&mut self.active_meters, &mut forward);
        let mut backward: Vec<M> = Vec::new();
        while forward.len() > 0
            invariant
                count == old(self)@.len(),
                forward@.len() + backward@.len() == count,
                forall|j: int| 0 <= j < forward@.len() ==> (#[trigger] forward@[j]) == old(self)@[j],
                forall|j: int|
                    0 <= j < backward@.len() ==> (#[trigger] backward@[j]) == old(self)@[count - 1 - j],
            decreases forward@.len(),
        {
            let meter = forward.pop().unwrap();
            backward.push(meter);
        }
        let mut survivors: Vec<usize> = Vec::new();
        let mut heard: Vec<bool> = Vec::new();
        let mut peak: u128 = 0;
        let mut rms: u128 = 0;
        let mut i: usize = 0;
        while i < count
            invariant
                i <= count,
                count == readings@.len(),
                count == old(self)@.len(),
                backward@.len() == count - i,
                forall|j: int|
                    0 <= j < backward@.len() ==> (#[trigger] backward@[j]) == old(self)@[count - 1 - j],
                self.active_meters@.len() == survivors@.len(),
                heard@.len() == survivors@.len(),
                forall|j: int|
                    0 <= j < survivors@.len() ==> (#[trigger] survivors@[j]) < i && is_live(
                        readings@[survivors@[j] as int],
                        now,
                    ),
                forall|a: int, b: int| 0 <= a < b < survivors@.len() ==> survivors@[a] < survivors@[b],
                forall|k: int|
                    0 <= k < i && is_live(#[trigger] readings@[k], now) ==> exists|j: int|
                        0 <= j < survivors@.len() && survivors@[j] == k,
                forall|j: int|
                    0 <= j < survivors@.len() ==> (#[trigger] self.active_meters@[j]) == old(
                        self,
                    )@[survivors@[j] as int],
                forall|j: int|
                    0 <= j < survivors@.len() ==> (#[trigger] heard@[j])
                        == !readings@[survivors@[j] as int].paused,
                is_master_peak(peak as int, readings@.take(i as int), master_volume, now),
                is_master_rms(rms as int, readings@.take(i as int), master_volume, now),
            decreases count - i,
        {
            let meter = backward.pop().unwrap();
            let reading = &readings[i];
            let ghost seen = readings@.take(i as int);
            let ghost seen_now = readings@.take(i + 1);
            let ghost peak_before = peak;
            let ghost rms_before = rms;
            if check_live(reading, now) {
                let ghost before = survivors@;
                self.active_meters.push(meter);
                survivors.push(i);
                heard.push(!reading.paused);
                if !reading.paused {
                    let its_peak = scale(reading.levels.peak, reading.levels.volume, master_volume);
                    let its_rms = scale(reading.levels.rms, reading.levels.volume, master_volume);
                    if its_peak > peak {
                        peak = its_peak;
                    }
                    if its_rms > rms {
                        rms = its_rms;
                    }
                }
                proof {
                    assert forall|k: int| 0 <= k < i + 1 && is_live(#[trigger] readings@[k], now) implies exists|
                        j: int,
                    | 0 <= j < survivors@.len() && survivors@[j] == k by {
                        if k < i {
                            let j = choose|j: int| 0 <= j < before.len() && before[j] == k;
                            assert(survivors@[j] == k);
                        } else {
                            assert(survivors@[survivors@.len() - 1] == k);
                        }
                    }
                }
            }
            proof {
                assert(seen_now[i as int] == *reading);
                assert forall|k: int| 0 <= k < seen_now.len() implies heard_peak(
                    #[trigger] seen_now[k],
                    master_volume,
                    now,
                ) <= peak by {
                    if k < i {
                        assert(seen_now[k] == seen[k]);
                    }
                }
                assert forall|k: int| 0 <= k < seen_now.len() implies heard_rms(
                    #[trigger] seen_now[k],
                    master_volume,
                    now,
                ) <= rms by {
                    if k < i {
                        assert(seen_now[k] == seen[k]);
                    }
                }
                if peak != 0 {
                    if peak == peak_before {
                        let k = choose|k: int|
                            0 <= k < seen.len() && heard_peak(#[trigger] seen[k], master_volume, now) == peak;
                        assert(heard_peak(seen_now[k], master_volume, now) == peak);
                    } else {
                        assert(heard_peak(seen_now[i as int], master_volume, now) == peak);
                    }
                }
                if rms != 0 {
                    if rms == rms_before {
                        let k = choose|k: int|
                            0 <= k < seen.len() && heard_rms(#[trigger] seen[k], master_volume, now) == rms;
                        assert(heard_rms(seen_now[k], master_volume, now) == rms);
                    } else {
                        assert(heard_rms(seen_now[i as int], master_volume, now) == rms);
                    }
                }
            }
            i += 1;
        }
        proof {
            assert(readings@.take(i as int) =~= readings@);
        }
        let interval_ms = if survivors.len() > 0 {
            ACTIVE_POLL_MS
        } else {
            IDLE_POLL_MS
        };
        Some(MeterTick { survivors, heard, master: MasterLevelEvent { peak, rms }, interval_ms })
    }
}

} // verus!
